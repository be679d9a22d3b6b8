//! Pure logic of the downloader side: video URLs, channel-URL extraction
//! from loosely shaped metadata, date and duration formatting, format
//! labels, and the normalization of fetched comments. The subprocess
//! invocations and all file I/O stay with the caller.

use vstd::prelude::*;

use crate::records::MediaCategory;
use crate::text::{
    all_digits, dec_digits, find_from, push_char, push_dec, spec_trim, str_eq, str_starts_with,
    str_to_chars, str_val, trim_range,
};

verus! {

/// Lowercase form of an ASCII letter; anything else is unchanged.
pub open spec fn lower_char(c: char) -> char {
    if 65 <= c as u32 <= 90 {
        ((c as u8) + 32) as char
    } else {
        c
    }
}

pub open spec fn lower_of(s: Seq<char>) -> Seq<char> {
    s.map_values(|c: char| lower_char(c))
}

/// ASCII-lowercases a string.
pub fn to_ascii_lower(value: &str) -> (r: String)
    ensures
        r@ == lower_of(value@),
{
    let n: usize = value.unicode_len();
    let mut r = String::new();
    let mut i: usize = 0;
    while i < n
        invariant
            i <= n,
            n == value@.len(),
            r@ == lower_of(value@).take(i as int),
        decreases n - i,
    {
        let c = value.get_char(i);
        let u = c as u32;
        if 65 <= u && u <= 90 {
            push_char(&mut r, ((c as u8) + 32) as char);
        } else {
            push_char(&mut r, c);
        }
        proof {
            assert(r@ =~= lower_of(value@).take(i + 1));
        }
        i = i + 1;
    }
    proof {
        assert(lower_of(value@).take(n as int) =~= lower_of(value@));
    }
    r
}

/// Uppercase form of an ASCII letter; anything else is unchanged.
pub open spec fn upper_char(c: char) -> char {
    if 97 <= c as u32 <= 122 {
        ((c as u8) - 32) as char
    } else {
        c
    }
}

pub open spec fn upper_of(s: Seq<char>) -> Seq<char> {
    s.map_values(|c: char| upper_char(c))
}

/// ASCII-uppercases a string.
pub fn to_ascii_upper(value: &str) -> (r: String)
    ensures
        r@ == upper_of(value@),
{
    let n: usize = value.unicode_len();
    let mut r = String::new();
    let mut i: usize = 0;
    while i < n
        invariant
            i <= n,
            n == value@.len(),
            r@ == upper_of(value@).take(i as int),
        decreases n - i,
    {
        let c = value.get_char(i);
        let u = c as u32;
        if 97 <= u && u <= 122 {
            push_char(&mut r, ((c as u8) - 32) as char);
        } else {
            push_char(&mut r, c);
        }
        proof {
            assert(r@ =~= upper_of(value@).take(i + 1));
        }
        i = i + 1;
    }
    proof {
        assert(upper_of(value@).take(n as int) =~= upper_of(value@));
    }
    r
}

/// The public watch URL of a video or short.
pub fn video_url_for_kind(video_id: &str, kind: crate::records::MediaCategory) -> (r: String)
    ensures
        kind is Video ==> r@ == "https://www.youtube.com/watch?v="@ + video_id@,
        kind is Short ==> r@ == "https://www.youtube.com/shorts/"@ + video_id@,
{
    let mut r = match kind {
        crate::records::MediaCategory::Video => String::from_str("https://www.youtube.com/watch?v="),
        crate::records::MediaCategory::Short => String::from_str("https://www.youtube.com/shorts/"),
    };
    r.append(video_id);
    r
}

pub uninterp spec fn rfc3339_of_epoch(timestamp: i64) -> Option<Seq<char>>;

/// Relies on chrono's `DateTime::from_timestamp` and `to_rfc3339`: the
/// rendering is a pure function of the timestamp, absent only for
/// timestamps outside chrono's representable range.
#[verifier::external_body]
pub fn timestamp_to_iso(timestamp: i64) -> (r: Option<String>)
    ensures
        r is Some <==> rfc3339_of_epoch(timestamp) is Some,
        r matches Some(s) ==> s@ == rfc3339_of_epoch(timestamp)->0,
{
    chrono::DateTime::<chrono::Utc>::from_timestamp(timestamp, 0).map(
        |datetime| datetime.to_rfc3339(),
    )
}

pub uninterp spec fn rfc3339_reformat(value: Seq<char>) -> Option<Seq<char>>;

/// Relies on chrono's `DateTime::parse_from_rfc3339` and `to_rfc3339`:
/// the round trip depends on the text alone, absent when the text is not
/// an RFC 3339 timestamp.
#[verifier::external_body]
fn reformat_rfc3339(value: &str) -> (r: Option<String>)
    ensures
        r is Some <==> rfc3339_reformat(value@) is Some,
        r matches Some(s) ==> s@ == rfc3339_reformat(value@)->0,
{
    chrono::DateTime::parse_from_rfc3339(value).ok().map(|datetime| datetime.to_rfc3339())
}

pub open spec fn is_leap_year(y: int) -> bool {
    y % 4 == 0 && (y % 100 != 0 || y % 400 == 0)
}

pub open spec fn days_in_month(y: int, m: int) -> int {
    if m == 1 || m == 3 || m == 5 || m == 7 || m == 8 || m == 10 || m == 12 {
        31
    } else if m == 4 || m == 6 || m == 9 || m == 11 {
        30
    } else if m == 2 {
        if is_leap_year(y) {
            29
        } else {
            28
        }
    } else {
        0
    }
}

/// A calendar date that exists.
pub open spec fn valid_ymd(y: int, m: int, d: int) -> bool {
    1 <= m <= 12 && 1 <= d <= days_in_month(y, m)
}

/// The ISO form of an eight-digit `YYYYMMDD` upload date, when the digits
/// name a real calendar date.
pub open spec fn spec_upload_date_iso(s: Seq<char>) -> Option<Seq<char>> {
    if s.len() == 8 && all_digits(s) && valid_ymd(
        str_val(s.subrange(0, 4)) as int,
        str_val(s.subrange(4, 6)) as int,
        str_val(s.subrange(6, 8)) as int,
    ) {
        Some(
            s.subrange(0, 4) + "-"@ + s.subrange(4, 6) + "-"@ + s.subrange(6, 8) + "T00:00:00Z"@,
        )
    } else {
        None
    }
}

/// Converts a `YYYYMMDD` upload date into ISO-8601, rejecting anything
/// that is not eight digits naming a real date.
pub fn upload_date_to_iso(value: &str) -> (r: Option<String>)
    ensures
        r.deep_view() == spec_upload_date_iso(value@),
{
    let v = str_to_chars(value);
    if v.len() != 8 {
        return None;
    }
    proof {
        if all_digits(v@) {
            assert(all_digits(v@.subrange(0, 4)) && all_digits(v@.subrange(4, 6)) && all_digits(
                v@.subrange(6, 8),
            )) by {
                assert(forall|i: int| 0 <= i < 4 ==> #[trigger] v@.subrange(0, 4)[i] == v@[i]);
                assert(forall|i: int|
                    0 <= i < 2 ==> #[trigger] v@.subrange(4, 6)[i] == v@[i + 4]);
                assert(forall|i: int|
                    0 <= i < 2 ==> #[trigger] v@.subrange(6, 8)[i] == v@[i + 6]);
            }
        }
    }
    let y = match digits_value(&v, 0, 4) {
        Some(y) => y,
        None => {
            return None;
        },
    };
    let m = match digits_value(&v, 4, 6) {
        Some(m) => m,
        None => {
            return None;
        },
    };
    let d = match digits_value(&v, 6, 8) {
        Some(d) => d,
        None => {
            return None;
        },
    };
    proof {
        assert(all_digits(v@)) by {
            assert(forall|i: int| 0 <= i < 4 ==> #[trigger] v@[i] == v@.subrange(0, 4)[i]);
            assert(forall|i: int| 4 <= i < 6 ==> #[trigger] v@[i] == v@.subrange(4, 6)[i - 4]);
            assert(forall|i: int| 6 <= i < 8 ==> #[trigger] v@[i] == v@.subrange(6, 8)[i - 6]);
        }
    }
    let ok = 1 <= m && m <= 12 && 1 <= d && {
        let dim: u64 = if m == 1 || m == 3 || m == 5 || m == 7 || m == 8 || m == 10 || m == 12 {
            31
        } else if m == 4 || m == 6 || m == 9 || m == 11 {
            30
        } else {
            if y % 4 == 0 && (y % 100 != 0 || y % 400 == 0) {
                29
            } else {
                28
            }
        };
        d <= dim
    };
    if !ok {
        return None;
    }
    let mut out = crate::text::chars_to_string(&v, 0, 4);
    out.append("-");
    let mm = crate::text::chars_to_string(&v, 4, 6);
    out.append(mm.as_str());
    out.append("-");
    let dd = crate::text::chars_to_string(&v, 6, 8);
    out.append(dd.as_str());
    out.append("T00:00:00Z");
    proof {
        assert(out@ =~= spec_upload_date_iso(value@)->0);
    }
    Some(out)
}

/// A strict `YYYY-MM-DD` date.
pub open spec fn is_plain_date(s: Seq<char>) -> bool {
    &&& s.len() == 10
    &&& all_digits(s.subrange(0, 4))
    &&& s[4] == '-'
    &&& all_digits(s.subrange(5, 7))
    &&& s[7] == '-'
    &&& all_digits(s.subrange(8, 10))
    &&& valid_ymd(
        str_val(s.subrange(0, 4)) as int,
        str_val(s.subrange(5, 7)) as int,
        str_val(s.subrange(8, 10)) as int,
    )
}

/// What a comment's free-form time text yields: a reformatted RFC 3339
/// timestamp, or a plain date extended to midnight, or nothing.
pub open spec fn spec_time_text(value: Seq<char>) -> Option<Seq<char>> {
    let t = spec_trim(value);
    if t.len() == 0 {
        None
    } else if rfc3339_reformat(t) is Some {
        rfc3339_reformat(t)
    } else if is_plain_date(t) {
        Some(t + "T00:00:00Z"@)
    } else {
        None
    }
}

/// Parses known absolute time strings into ISO-8601; relative phrases
/// yield nothing.
#[verifier::rlimit(60)]
pub fn parse_time_text(value: &str) -> (r: Option<String>)
    ensures
        r.deep_view() == spec_time_text(value@),
{
    let chars = str_to_chars(value);
    let n = chars.len();
    let (lo, hi) = trim_range(&chars, 0, n);
    proof {
        assert(chars@.subrange(0, n as int) =~= chars@);
    }
    if lo == hi {
        return None;
    }
    let t = crate::text::chars_to_string(&chars, lo, hi);
    match reformat_rfc3339(t.as_str()) {
        Some(s) => Some(s),
        None => {
            let tc = str_to_chars(t.as_str());
            if tc.len() != 10 {
                return None;
            }
            if tc[4] != '-' || tc[7] != '-' {
                return None;
            }
            let y = match digits_value(&tc, 0, 4) {
                Some(y) => y,
                None => {
                    return None;
                },
            };
            let m = match digits_value(&tc, 5, 7) {
                Some(m) => m,
                None => {
                    return None;
                },
            };
            let d = match digits_value(&tc, 8, 10) {
                Some(d) => d,
                None => {
                    return None;
                },
            };
            let ok = 1 <= m && m <= 12 && 1 <= d && {
                let dim: u64 = if m == 1 || m == 3 || m == 5 || m == 7 || m == 8 || m == 10 || m
                    == 12 {
                    31
                } else if m == 4 || m == 6 || m == 9 || m == 11 {
                    30
                } else if m == 2 {
                    if y % 4 == 0 && (y % 100 != 0 || y % 400 == 0) {
                        29
                    } else {
                        28
                    }
                } else {
                    0
                };
                d <= dim
            };
            if !ok {
                return None;
            }
            let mut out = t;
            out.append("T00:00:00Z");
            proof {
                assert(out@ =~= spec_time_text(value@)->0);
            }
            Some(out)
        },
    }
}

/// The value of an all-digit range, or nothing if any character is not a
/// digit.
fn digits_value(v: &Vec<char>, from: usize, to: usize) -> (r: Option<u64>)
    requires
        from <= to <= v@.len(),
        to - from <= 8,
    ensures
        r is Some <==> all_digits(v@.subrange(from as int, to as int)),
        r matches Some(x) ==> x == str_val(v@.subrange(from as int, to as int)),
{
    let ghost s = v@.subrange(from as int, to as int);
    let mut acc: u64 = 0;
    let mut i: usize = from;
    while i < to
        invariant
            from <= i <= to <= v@.len(),
            to - from <= 8,
            s == v@.subrange(from as int, to as int),
            all_digits(s.take(i - from)),
            acc == str_val(s.take(i - from)),
            acc < crate::text::pow10((i - from) as nat),
        decreases to - i,
    {
        let c = v[i];
        if !crate::text::is_digit(c) {
            proof {
                assert(s[i - from] == v@[i as int]);
                assert(!all_digits(s));
            }
            return None;
        }
        proof {
            assert(s.take(i - from + 1).drop_last() =~= s.take(i - from));
            assert(s.take(i - from + 1).last() == v@[i as int]);
            crate::text::lemma_pow10_mono((i - from) as nat, 7);
            assert(crate::text::pow10(0) == 1);
            assert(crate::text::pow10(1) == 10);
            assert(crate::text::pow10(2) == 100);
            assert(crate::text::pow10(3) == 1000);
            assert(crate::text::pow10(4) == 10000);
            assert(crate::text::pow10(5) == 100000);
            assert(crate::text::pow10(6) == 1000000);
            assert(crate::text::pow10(7) == 10000000);
        }
        acc = acc * 10 + ((c as u32 - 48) as u64);
        i = i + 1;
    }
    proof {
        assert(s.take(to - from) =~= s);
    }
    Some(acc)
}

/// Two-digit zero padding for clock components.
pub open spec fn pad2(n: nat) -> Seq<char> {
    if n < 10 {
        "0"@ + dec_digits(n)
    } else {
        dec_digits(n)
    }
}

/// `H:MM:SS` for an hour or more, `M:SS` below.
pub open spec fn spec_format_duration(duration: int) -> Seq<char> {
    let h = duration / 3600;
    let m = (duration % 3600) / 60;
    let sec = duration % 60;
    if h > 0 {
        dec_digits(h as nat) + ":"@ + pad2(m as nat) + ":"@ + pad2(sec as nat)
    } else {
        dec_digits(m as nat) + ":"@ + pad2(sec as nat)
    }
}

/// Renders a duration in seconds as `H:MM:SS` or `M:SS`.
pub fn format_duration(duration: i64) -> (r: String)
    requires
        duration >= 0,
    ensures
        r@ == spec_format_duration(duration as int),
{
    let d = duration as u64;
    let hours = d / 3600;
    let minutes = (d % 3600) / 60;
    let seconds = d % 60;
    let mut r = String::new();
    if hours > 0 {
        push_dec(&mut r, hours);
        push_char(&mut r, ':');
        if minutes < 10 {
            push_char(&mut r, '0');
        }
        push_dec(&mut r, minutes);
        push_char(&mut r, ':');
        if seconds < 10 {
            push_char(&mut r, '0');
        }
        push_dec(&mut r, seconds);
    } else {
        push_dec(&mut r, minutes);
        push_char(&mut r, ':');
        if seconds < 10 {
            push_char(&mut r, '0');
        }
        push_dec(&mut r, seconds);
    }
    proof {
        reveal_strlit("0");
        reveal_strlit(":");
        assert(r@ =~= spec_format_duration(duration as int));
    }
    r
}

/// `{height}p {range}` from whatever of the two parts is present; an
/// empty dynamic range counts as absent.
pub fn format_quality_label(height: Option<i64>, dynamic_range: Option<&str>) -> (r: Option<
    String,
>)
    requires
        height matches Some(h) ==> h >= 0,
    ensures
        ({
            let range_part = match dynamic_range {
                Some(dr) => dr@.len() > 0,
                None => false,
            };
            match (height, range_part) {
                (Some(h), true) => r matches Some(s) && s@ == dec_digits(h as nat) + "p "@
                    + dynamic_range->0@,
                (Some(h), false) => r matches Some(s) && s@ == dec_digits(h as nat) + "p"@,
                (None, true) => r matches Some(s) && s@ == dynamic_range->0@,
                (None, false) => r is None,
            }
        }),
{
    let range_nonempty = match dynamic_range {
        Some(dr) => dr.unicode_len() > 0,
        None => false,
    };
    match height {
        Some(h) => {
            let mut s = String::new();
            push_dec(&mut s, h as u64);
            if range_nonempty {
                s.append("p ");
                match dynamic_range {
                    Some(dr) => s.append(dr),
                    None => {},
                }
            } else {
                s.append("p");
            }
            Some(s)
        },
        None => {
            if range_nonempty {
                match dynamic_range {
                    Some(dr) => Some(String::from_str(dr)),
                    None => None,
                }
            } else {
                None
            }
        },
    }
}

/// The MIME type served for a container extension.
pub fn mime_from_extension(ext: &str) -> (r: String)
    ensures
        r@ == (if ext@ == "mp4"@ {
            "video/mp4"@
        } else if ext@ == "mkv"@ {
            "video/x-matroska"@
        } else if ext@ == "webm"@ {
            "video/webm"@
        } else {
            "video/"@ + ext@
        }),
{
    if str_eq(ext, "mp4") {
        String::from_str("video/mp4")
    } else if str_eq(ext, "mkv") {
        String::from_str("video/x-matroska")
    } else if str_eq(ext, "webm") {
        String::from_str("video/webm")
    } else {
        let mut r = String::from_str("video/");
        r.append(ext);
        r
    }
}

/// Normalizes a yt-dlp format id into a safe file-name fragment.
pub fn sanitize_format_id(format_id: &str) -> (r: String)
    ensures
        r@ == crate::media::slug_of(format_id@),
{
    crate::media::normalize_format_id(format_id)
}

/// Membership of a string among collected names.
pub open spec fn contains_str(names: Seq<Seq<char>>, value: Seq<char>) -> bool {
    exists|i: int| 0 <= i < names.len() && names[i] == value
}

/// What `push_unique` leaves behind.
pub open spec fn spec_push_unique(names: Seq<Seq<char>>, value: Seq<char>) -> Seq<Seq<char>> {
    if contains_str(names, value) {
        names
    } else {
        names.push(value)
    }
}

/// Appends a name unless an equal one was already collected.
pub fn push_unique(list: &mut Vec<String>, value: &str)
    ensures
        final(list).deep_view() == spec_push_unique(old(list).deep_view(), value@),
{
    let mut i: usize = 0;
    while i < list.len()
        invariant
            i <= list@.len(),
            list@ == old(list)@,
            forall|j: int| 0 <= j < i ==> list.deep_view()[j] != value@,
        decreases list@.len() - i,
    {
        if str_eq(list[i].as_str(), value) {
            proof {
                assert(list.deep_view()[i as int] == value@);
                assert(contains_str(list.deep_view(), value@));
            }
            return ;
        }
        i = i + 1;
    }
    proof {
        assert(!contains_str(list.deep_view(), value@));
    }
    list.push(String::from_str(value));
    proof {
        assert(final(list).deep_view() =~= old(list).deep_view().push(value@));
    }
}

/// All of `add` pushed uniquely onto `acc`, in order.
pub open spec fn spec_push_unique_all(acc: Seq<Seq<char>>, add: Seq<Seq<char>>) -> Seq<Seq<char>>
    decreases add.len(),
{
    if add.len() == 0 {
        acc
    } else {
        spec_push_unique(spec_push_unique_all(acc, add.drop_last()), add.last())
    }
}

/// Merges creator, channel and uploader names into one author list,
/// first occurrence of each name winning.
pub fn collect_author_names(
    creators: &Vec<String>,
    channel_names: &Vec<String>,
    uploader_names: &Vec<String>,
) -> (r: Vec<String>)
    ensures
        r.deep_view() == spec_push_unique_all(
            spec_push_unique_all(
                spec_push_unique_all(Seq::empty(), creators.deep_view()),
                channel_names.deep_view(),
            ),
            uploader_names.deep_view(),
        ),
{
    let mut names: Vec<String> = Vec::new();
    proof {
        assert(names.deep_view() =~= Seq::<Seq<char>>::empty());
    }
    push_unique_all(&mut names, creators);
    push_unique_all(&mut names, channel_names);
    push_unique_all(&mut names, uploader_names);
    names
}

/// Pushes every name of `add` uniquely.
pub fn push_unique_all(list: &mut Vec<String>, add: &Vec<String>)
    ensures
        final(list).deep_view() == spec_push_unique_all(old(list).deep_view(), add.deep_view()),
{
    let mut i: usize = 0;
    while i < add.len()
        invariant
            i <= add@.len(),
            list.deep_view() == spec_push_unique_all(old(list).deep_view(), add.deep_view().take(i as int)),
        decreases add@.len() - i,
    {
        push_unique(list, add[i].as_str());
        proof {
            assert(add.deep_view().take(i + 1).drop_last() =~= add.deep_view().take(i as int));
            assert(add.deep_view().take(i + 1).last() == add.deep_view()[i as int]);
        }
        i = i + 1;
    }
    proof {
        assert(add.deep_view().take(add@.len() as int) =~= add.deep_view());
    }
}


/// One value or several, as yt-dlp's loosely shaped JSON delivers them.
pub enum OneOrMany<T> {
    One(T),
    Many(Vec<T>),
}

/// A channel, uploader or creator: either a bare name or an object of
/// optional identifying fields.
pub enum CreatorInfo {
    Name(String),
    Object {
        name: Option<String>,
        title: Option<String>,
        url: Option<String>,
        id: Option<String>,
        channel_url: Option<String>,
        uploader_url: Option<String>,
        channel_id: Option<String>,
    },
}

/// Just the fields needed to recover a channel URL from a video's
/// metadata record.
pub struct MinimalInfo {
    pub channel_url: Option<OneOrMany<String>>,
    pub uploader_url: Option<OneOrMany<String>>,
    pub creators: Option<Vec<CreatorInfo>>,
    pub channel: Option<OneOrMany<CreatorInfo>>,
    pub uploader: Option<OneOrMany<CreatorInfo>>,
}

/// The URL a creator entry offers, preferring its own `url` field.
pub open spec fn spec_creator_url(c: CreatorInfo) -> Option<Seq<char>> {
    match c {
        CreatorInfo::Name(_) => None,
        CreatorInfo::Object { url, channel_url, uploader_url, .. } => match url {
            Some(u) => Some(u@),
            None => match channel_url {
                Some(u) => Some(u@),
                None => match uploader_url {
                    Some(u) => Some(u@),
                    None => None,
                },
            },
        },
    }
}

impl CreatorInfo {
    /// The display name of a creator entry.
    pub fn name(&self) -> (r: Option<&String>)
        ensures
            r.deep_view() == (match *self {
                CreatorInfo::Name(ref v) => Some(v@),
                CreatorInfo::Object { ref name, ref title, .. } => match name {
                    Some(n) => Some(n@),
                    None => match title {
                        Some(t) => Some(t@),
                        None => None,
                    },
                },
            }),
    {
        match self {
            CreatorInfo::Name(v) => Some(v),
            CreatorInfo::Object { name, title, .. } => match name {
                Some(n) => Some(n),
                None => match title {
                    Some(t) => Some(t),
                    None => None,
                },
            },
        }
    }

    /// The channel URL of a creator entry.
    pub fn url(&self) -> (r: Option<&String>)
        ensures
            r.deep_view() == spec_creator_url(*self),
    {
        match self {
            CreatorInfo::Name(_) => None,
            CreatorInfo::Object { url, channel_url, uploader_url, .. } => match url {
                Some(u) => Some(u),
                None => match channel_url {
                    Some(u) => Some(u),
                    None => match uploader_url {
                        Some(u) => Some(u),
                        None => None,
                    },
                },
            },
        }
    }

    /// The channel id of a creator entry.
    pub fn id(&self) -> (r: Option<&String>)
        ensures
            r.deep_view() == (match *self {
                CreatorInfo::Name(_) => None,
                CreatorInfo::Object { ref id, ref channel_id, .. } => match id {
                    Some(v) => Some(v@),
                    None => match channel_id {
                        Some(v) => Some(v@),
                        None => None,
                    },
                },
            }),
    {
        match self {
            CreatorInfo::Name(_) => None,
            CreatorInfo::Object { id, channel_id, .. } => match id {
                Some(v) => Some(v),
                None => match channel_id {
                    Some(v) => Some(v),
                    None => None,
                },
            },
        }
    }
}

/// The plain strings of a one-or-many field.
pub open spec fn strings_of(o: OneOrMany<String>) -> Seq<Seq<char>> {
    match o {
        OneOrMany::One(v) => seq![v@],
        OneOrMany::Many(vs) => vs.deep_view(),
    }
}

pub open spec fn opt_strings(o: Option<OneOrMany<String>>) -> Seq<Seq<char>> {
    match o {
        None => Seq::empty(),
        Some(x) => strings_of(x),
    }
}

/// The creator entries of a one-or-many field.
pub open spec fn creators_of(o: Option<OneOrMany<CreatorInfo>>) -> Seq<CreatorInfo> {
    match o {
        None => Seq::empty(),
        Some(OneOrMany::One(c)) => seq![c],
        Some(OneOrMany::Many(cs)) => cs@,
    }
}

/// The URLs the creator entries offer, in order.
pub open spec fn urls_of_creators(cs: Seq<CreatorInfo>) -> Seq<Seq<char>>
    decreases cs.len(),
{
    if cs.len() == 0 {
        Seq::empty()
    } else {
        (match spec_creator_url(cs[0]) {
            Some(u) => seq![u],
            None => Seq::empty(),
        }) + urls_of_creators(cs.drop_first())
    }
}

proof fn lemma_urls_of_creators_push(cs: Seq<CreatorInfo>, c: CreatorInfo)
    ensures
        urls_of_creators(cs.push(c)) == urls_of_creators(cs) + (match spec_creator_url(c) {
            Some(u) => seq![u],
            None => Seq::<Seq<char>>::empty(),
        }),
    decreases cs.len(),
{
    let tail = match spec_creator_url(c) {
        Some(u) => seq![u],
        None => Seq::<Seq<char>>::empty(),
    };
    if cs.len() == 0 {
        assert(cs.push(c)[0] == c);
        assert(cs.push(c).drop_first() =~= Seq::<CreatorInfo>::empty());
        assert(urls_of_creators(Seq::<CreatorInfo>::empty()) == Seq::<Seq<char>>::empty());
        assert(urls_of_creators(cs.push(c)) == tail + Seq::<Seq<char>>::empty());
        assert(tail + Seq::<Seq<char>>::empty() =~= tail);
        assert(urls_of_creators(cs) == Seq::<Seq<char>>::empty());
        assert(Seq::<Seq<char>>::empty() + tail =~= tail);
    } else {
        assert(cs.push(c)[0] == cs[0]);
        assert(cs.push(c).drop_first() =~= cs.drop_first().push(c));
        lemma_urls_of_creators_push(cs.drop_first(), c);
        let head = match spec_creator_url(cs[0]) {
            Some(u) => seq![u],
            None => Seq::<Seq<char>>::empty(),
        };
        assert(urls_of_creators(cs.push(c)) == head + urls_of_creators(cs.drop_first().push(c)));
        assert(urls_of_creators(cs) == head + urls_of_creators(cs.drop_first()));
        assert(head + (urls_of_creators(cs.drop_first()) + tail) =~= (head + urls_of_creators(
            cs.drop_first(),
        )) + tail);
    }
}

/// Every URL the metadata offers, in the order the fields are consulted:
/// channel URLs, uploader URLs, channel entries, uploader entries, then
/// the creators list.
pub open spec fn url_candidates(info: MinimalInfo) -> Seq<Seq<char>> {
    opt_strings(info.channel_url) + opt_strings(info.uploader_url) + urls_of_creators(
        creators_of(info.channel),
    ) + urls_of_creators(creators_of(info.uploader)) + urls_of_creators(
        match info.creators {
            None => Seq::empty(),
            Some(cs) => cs@,
        },
    )
}

/// The first candidate that is not blank.
pub open spec fn first_nonblank(us: Seq<Seq<char>>) -> Option<Seq<char>>
    decreases us.len(),
{
    if us.len() == 0 {
        None
    } else if spec_trim(us[0]).len() > 0 {
        Some(us[0])
    } else {
        first_nonblank(us.drop_first())
    }
}

/// Collects the URLs of a creator sequence.
fn push_creator_urls(out: &mut Vec<String>, cs: &Vec<CreatorInfo>)
    ensures
        final(out).deep_view() == old(out).deep_view() + urls_of_creators(cs@),
{
    let ghost base = out.deep_view();
    proof {
        assert(cs@.take(0) =~= Seq::<CreatorInfo>::empty());
        assert(urls_of_creators(Seq::<CreatorInfo>::empty()) == Seq::<Seq<char>>::empty());
        assert(out.deep_view() =~= base + urls_of_creators(cs@.take(0)));
    }
    let mut i: usize = 0;
    while i < cs.len()
        invariant
            i <= cs@.len(),
            base == old(out).deep_view(),
            out.deep_view() == base + urls_of_creators(cs@.take(i as int)),
        decreases cs@.len() - i,
    {
        let ghost prev = out.deep_view();
        match cs[i].url() {
            Some(u) => {
                out.push(u.clone());
                proof {
                    assert(out.deep_view() =~= prev.push(u@));
                }
            },
            None => {},
        }
        proof {
            assert(cs@.take(i + 1) =~= cs@.take(i as int).push(cs@[i as int]));
            lemma_urls_of_creators_push(cs@.take(i as int), cs@[i as int]);
            assert(urls_of_creators(cs@.take(i + 1)) == urls_of_creators(cs@.take(i as int)) + (
            match spec_creator_url(cs@[i as int]) {
                Some(u) => seq![u],
                None => Seq::<Seq<char>>::empty(),
            }));
            assert(out.deep_view() =~= base + urls_of_creators(cs@.take(i + 1)));
        }
        i = i + 1;
    }
    proof {
        assert(cs@.take(cs@.len() as int) =~= cs@);
    }
}

/// Collects the URLs of an optional one-or-many creator field.
fn push_one_many_creator_urls(out: &mut Vec<String>, o: &Option<OneOrMany<CreatorInfo>>)
    ensures
        final(out).deep_view() == old(out).deep_view() + urls_of_creators(creators_of(*o)),
{
    match o {
        None => {
            proof {
                assert(old(out).deep_view() + urls_of_creators(creators_of(*o)) =~= old(
                    out,
                ).deep_view());
            }
        },
        Some(OneOrMany::One(c)) => {
            let ghost prev = out.deep_view();
            match c.url() {
                Some(u) => {
                    out.push(u.clone());
                    proof {
                        assert(out.deep_view() =~= prev.push(u@));
                    }
                },
                None => {},
            }
            proof {
                assert(creators_of(*o) =~= seq![*c]);
                assert(creators_of(*o)[0] == *c);
                assert(creators_of(*o).drop_first() =~= Seq::<CreatorInfo>::empty());
                assert(urls_of_creators(Seq::<CreatorInfo>::empty())
                    == Seq::<Seq<char>>::empty());
                assert(urls_of_creators(creators_of(*o)) == (match spec_creator_url(*c) {
                    Some(u) => seq![u],
                    None => Seq::<Seq<char>>::empty(),
                }) + Seq::<Seq<char>>::empty());
                assert(out.deep_view() =~= prev + urls_of_creators(creators_of(*o)));
            }
        },
        Some(OneOrMany::Many(cs)) => {
            push_creator_urls(out, cs);
            proof {
                assert(creators_of(*o) == cs@);
            }
        },
    }
}

/// Collects the strings of an optional one-or-many string field.
fn push_opt_strings(out: &mut Vec<String>, o: &Option<OneOrMany<String>>)
    ensures
        final(out).deep_view() == old(out).deep_view() + opt_strings(*o),
{
    match o {
        None => {
            proof {
                assert(old(out).deep_view() + opt_strings(*o) =~= old(out).deep_view());
            }
        },
        Some(OneOrMany::One(v)) => {
            out.push(v.clone());
            proof {
                assert(opt_strings(*o) =~= seq![v@]);
                assert(final(out).deep_view() =~= old(out).deep_view() + opt_strings(*o));
            }
        },
        Some(OneOrMany::Many(vs)) => {
            let ghost base = out.deep_view();
            proof {
                assert(out.deep_view() =~= base + vs.deep_view().take(0));
            }
            let mut i: usize = 0;
            while i < vs.len()
                invariant
                    i <= vs@.len(),
                    base == old(out).deep_view(),
                    out.deep_view() == base + vs.deep_view().take(i as int),
                decreases vs@.len() - i,
            {
                let ghost prev = out.deep_view();
                out.push(vs[i].clone());
                proof {
                    assert(out.deep_view() =~= prev.push(vs.deep_view()[i as int]));
                    assert(vs.deep_view().take(i + 1) =~= vs.deep_view().take(i as int).push(
                        vs.deep_view()[i as int],
                    ));
                    assert(out.deep_view() =~= base + vs.deep_view().take(i + 1));
                }
                i = i + 1;
            }
            proof {
                assert(vs.deep_view().take(vs@.len() as int) =~= vs.deep_view());
                assert(opt_strings(*o) == vs.deep_view());
            }
        },
    }
}

/// The first non-blank channel URL a metadata record offers, consulting
/// the channel URL fields, the uploader URL fields, the channel and
/// uploader entries, and finally the creators list.
pub fn first_channel_url(info: &MinimalInfo) -> (r: Option<String>)
    ensures
        r.deep_view() == first_nonblank(url_candidates(*info)),
{
    let mut cands: Vec<String> = Vec::new();
    proof {
        assert(cands.deep_view() =~= Seq::<Seq<char>>::empty());
    }
    push_opt_strings(&mut cands, &info.channel_url);
    push_opt_strings(&mut cands, &info.uploader_url);
    push_one_many_creator_urls(&mut cands, &info.channel);
    push_one_many_creator_urls(&mut cands, &info.uploader);
    match &info.creators {
        Some(cs) => push_creator_urls(&mut cands, cs),
        None => {},
    }
    proof {
        assert(cands.deep_view() =~= url_candidates(*info));
    }
    let ghost us = cands.deep_view();
    proof {
        assert(us.skip(0) =~= us);
    }
    let mut i: usize = 0;
    while i < cands.len()
        invariant
            i <= cands@.len(),
            us == cands.deep_view(),
            us == url_candidates(*info),
            first_nonblank(us) == first_nonblank(us.skip(i as int)),
        decreases cands@.len() - i,
    {
        proof {
            assert(us.skip(i as int).drop_first() =~= us.skip(i + 1));
            assert(us.skip(i as int)[0] == us[i as int]);
        }
        let chars = str_to_chars(cands[i].as_str());
        let n = chars.len();
        let (lo, hi) = trim_range(&chars, 0, n);
        proof {
            assert(chars@.subrange(0, n as int) =~= chars@);
        }
        if lo < hi {
            return Some(cands[i].clone());
        }
        i = i + 1;
    }
    None
}

/// The channel URL a record resolves to: the first non-blank candidate,
/// trimmed, ready to hand to the downloader.
pub fn channel_url_of_info(info: &MinimalInfo) -> (r: Option<String>)
    ensures
        r.deep_view() == (match first_nonblank(url_candidates(*info)) {
            Some(u) => Some(spec_trim(u)),
            None => None::<Seq<char>>,
        }),
{
    match first_channel_url(info) {
        None => None,
        Some(u) => {
            let chars = str_to_chars(u.as_str());
            let n = chars.len();
            let (lo, hi) = trim_range(&chars, 0, n);
            proof {
                assert(chars@.subrange(0, n as int) =~= chars@);
            }
            Some(crate::text::chars_to_string(&chars, lo, hi))
        },
    }
}

/// The ids listed in a playlist dump from position `from` on: one per
/// line, trimmed, blank lines skipped.
pub open spec fn spec_id_lines_from(s: Seq<char>, from: int) -> Seq<Seq<char>>
    decreases s.len() - from + 1,
    via spec_id_lines_from_dec
{
    if from < 0 || from >= s.len() {
        Seq::empty()
    } else {
        let end = match find_from(s, from, '\n') {
            Some(k) => k,
            None => s.len() as int,
        };
        let t = spec_trim(s.subrange(from, end));
        let rest = spec_id_lines_from(s, end + 1);
        if t.len() > 0 {
            seq![t] + rest
        } else {
            rest
        }
    }
}

#[via_fn]
proof fn spec_id_lines_from_dec(s: Seq<char>, from: int) {
    crate::text::lemma_find_from_bounds(s, from, '\n');
}

/// Parses the line-per-id output of a playlist listing.
pub fn parse_id_lines(content: &str) -> (r: Vec<String>)
    ensures
        r.deep_view() == spec_id_lines_from(content@, 0),
{
    let v = str_to_chars(content);
    let n: usize = v.len();
    let mut r: Vec<String> = Vec::new();
    let mut pos: usize = 0;
    while pos < n
        invariant
            pos <= n,
            n == v@.len(),
            v@ == content@,
            r.deep_view() + spec_id_lines_from(content@, pos as int) == spec_id_lines_from(
                content@,
                0,
            ),
        decreases n - pos,
    {
        proof {
            assert(v@.subrange(0, n as int) =~= v@);
        }
        let end: usize = match crate::text::find_char(&v, pos, n, '\n') {
            Some(k) => k,
            None => n,
        };
        let (lo, hi) = trim_range(&v, pos, end);
        if lo < hi {
            r.push(crate::text::chars_to_string(&v, lo, hi));
        }
        proof {
            let nxt = if end < n {
                end + 1
            } else {
                n as int + 1
            };
            assert(r.deep_view() + spec_id_lines_from(content@, end + 1) =~= spec_id_lines_from(
                content@,
                0,
            ));
            assert(spec_id_lines_from(content@, n as int) =~= Seq::<Seq<char>>::empty());
            assert(spec_id_lines_from(content@, n as int + 1) =~= Seq::<Seq<char>>::empty());
        }
        if end == n {
            pos = n;
        } else {
            pos = end + 1;
        }
    }
    proof {
        assert(r.deep_view() + spec_id_lines_from(content@, pos as int) =~= r.deep_view());
        assert(r.deep_view() =~= spec_id_lines_from(content@, 0));
    }
    r
}

/// One raw comment as yt-dlp dumps it.
pub struct RawComment {
    pub id: String,
    pub author: Option<String>,
    pub text: Option<String>,
    pub like_count: Option<i64>,
    pub timestamp: Option<i64>,
    pub parent: Option<String>,
    pub author_is_uploader: bool,
    pub author_is_channel_owner: bool,
    pub reply_count: Option<i64>,
    pub time_text: Option<String>,
}

/// The posting time a raw comment resolves to: its numeric timestamp
/// rendered by the clock library when in range, else whatever its time
/// text yields.
pub open spec fn spec_comment_time(timestamp: Option<i64>, time_text: Option<Seq<char>>) -> Option<
    Seq<char>,
> {
    let fallback = match time_text {
        Some(t) => spec_time_text(t),
        None => None,
    };
    match timestamp {
        Some(t) => match rfc3339_of_epoch(t) {
            Some(s) => Some(s),
            None => fallback,
        },
        None => fallback,
    }
}

/// The stored record a raw comment becomes.
pub open spec fn spec_comment_record(videoid: Seq<char>, c: RawComment)
    -> crate::records::CommentRecordView {
    crate::records::CommentRecordView {
        id: c.id@,
        videoid,
        author: match c.author {
            Some(a) => a@,
            None => Seq::empty(),
        },
        text: match c.text {
            Some(t) => t@,
            None => Seq::empty(),
        },
        likes: c.like_count,
        time_posted: spec_comment_time(c.timestamp, c.time_text.deep_view()),
        parent_comment_id: c.parent.deep_view(),
        status_likedbycreator: c.author_is_channel_owner || c.author_is_uploader,
        reply_count: c.reply_count,
    }
}

/// The normalized comment list: one record per distinct id, the first
/// occurrence of each id winning, in order.
pub open spec fn spec_normalize_comments(
    videoid: Seq<char>,
    raw: Seq<RawComment>,
    seen: Seq<Seq<char>>,
) -> Seq<crate::records::CommentRecordView>
    decreases raw.len(),
{
    if raw.len() == 0 {
        Seq::empty()
    } else if contains_str(seen, raw[0].id@) {
        spec_normalize_comments(videoid, raw.drop_first(), seen)
    } else {
        seq![spec_comment_record(videoid, raw[0])] + spec_normalize_comments(
            videoid,
            raw.drop_first(),
            seen.push(raw[0].id@),
        )
    }
}

/// Whether an equal string was already collected.
fn contains_string(list: &Vec<String>, value: &str) -> (r: bool)
    ensures
        r == contains_str(list.deep_view(), value@),
{
    let mut i: usize = 0;
    while i < list.len()
        invariant
            i <= list@.len(),
            forall|j: int| 0 <= j < i ==> list.deep_view()[j] != value@,
        decreases list@.len() - i,
    {
        if str_eq(list[i].as_str(), value) {
            proof {
                assert(list.deep_view()[i as int] == value@);
            }
            return true;
        }
        i = i + 1;
    }
    false
}

/// Normalizes the raw comments fetched for one video: duplicates by id
/// are dropped (first wins), names and text default to empty, the
/// creator-liked flag folds the two uploader flags, and posting times
/// are resolved from the timestamp or the time text.
pub fn normalize_comments(videoid: &str, raw: &Vec<RawComment>) -> (r: Vec<
    crate::records::CommentRecord,
>)
    ensures
        r.deep_view() == spec_normalize_comments(videoid@, raw@, Seq::empty()),
{
    let mut out: Vec<crate::records::CommentRecord> = Vec::new();
    let mut seen: Vec<String> = Vec::new();
    proof {
        assert(out.deep_view() =~= Seq::<crate::records::CommentRecordView>::empty());
        assert(seen.deep_view() =~= Seq::<Seq<char>>::empty());
        assert(raw@.skip(0) =~= raw@);
        assert(out.deep_view() + spec_normalize_comments(videoid@, raw@.skip(0), seen.deep_view())
            =~= spec_normalize_comments(videoid@, raw@, Seq::empty()));
    }
    let mut i: usize = 0;
    while i < raw.len()
        invariant
            i <= raw@.len(),
            out.deep_view() + spec_normalize_comments(
                videoid@,
                raw@.skip(i as int),
                seen.deep_view(),
            ) == spec_normalize_comments(videoid@, raw@, Seq::empty()),
        decreases raw@.len() - i,
    {
        proof {
            assert(raw@.skip(i as int)[0] == raw@[i as int]);
            assert(raw@.skip(i as int).drop_first() =~= raw@.skip(i + 1));
        }
        let c = &raw[i];
        if !contains_string(&seen, c.id.as_str()) {
            let time_posted = match c.timestamp {
                Some(t) => match timestamp_to_iso(t) {
                    Some(s) => Some(s),
                    None => match &c.time_text {
                        Some(tt) => parse_time_text(tt.as_str()),
                        None => None,
                    },
                },
                None => match &c.time_text {
                    Some(tt) => parse_time_text(tt.as_str()),
                    None => None,
                },
            };
            let record = crate::records::CommentRecord {
                id: c.id.clone(),
                videoid: String::from_str(videoid),
                author: match &c.author {
                    Some(a) => a.clone(),
                    None => String::new(),
                },
                text: match &c.text {
                    Some(t) => t.clone(),
                    None => String::new(),
                },
                likes: c.like_count,
                time_posted,
                parent_comment_id: crate::records::clone_opt_string(&c.parent),
                status_likedbycreator: c.author_is_channel_owner || c.author_is_uploader,
                reply_count: c.reply_count,
            };
            proof {
                assert(record@ == spec_comment_record(videoid@, raw@[i as int]));
            }
            out.push(record);
            let ghost prev_seen = seen.deep_view();
            seen.push(c.id.clone());
            proof {
                assert(seen.deep_view() =~= prev_seen.push(raw@[i as int].id@));
            }
        }
        i = i + 1;
    }
    proof {
        assert(raw@.skip(raw@.len() as int) =~= Seq::<RawComment>::empty());
        assert(out.deep_view() =~= spec_normalize_comments(videoid@, raw@, Seq::empty()));
    }
    out
}


/// Index of the first of the trailing `/` characters before `j`.
pub open spec fn rtrim_slashes(s: Seq<char>, j: int) -> int
    decreases j,
{
    if j <= 0 || j > s.len() {
        0
    } else if s[j - 1] == '/' {
        rtrim_slashes(s, j - 1)
    } else {
        j
    }
}

/// The listing URL for one kind under a channel URL: the `/videos` or
/// `/shorts` suffix is appended to the path part (before any query or
/// fragment, after dropping trailing slashes) unless already there, and
/// the query and fragment are put back.
pub open spec fn spec_channel_list_url(u: Seq<char>, kind: crate::records::MediaCategory) -> Seq<
    char,
> {
    let h = match find_from(u, 0, '#') {
        Some(k) => k,
        None => u.len() as int,
    };
    let frag = u.subrange(h, u.len() as int);
    let wf = u.subrange(0, h);
    let q = match find_from(wf, 0, '?') {
        Some(k) => k,
        None => wf.len() as int,
    };
    let query = wf.subrange(q, wf.len() as int);
    let base = wf.subrange(0, rtrim_slashes(wf.subrange(0, q), q));
    let suffix = match kind {
        crate::records::MediaCategory::Video => "/videos"@,
        crate::records::MediaCategory::Short => "/shorts"@,
    };
    let stem = if base.len() >= 7 && base.subrange(base.len() - 7, base.len() as int) == suffix {
        base
    } else {
        base + suffix
    };
    stem + query + frag
}

/// Builds the channel listing URL for one kind without doubling an
/// existing `/videos` or `/shorts` suffix.
#[verifier::rlimit(60)]
pub fn build_channel_list_url(channel_url: &str, kind: crate::records::MediaCategory) -> (r:
    String)
    ensures
        r@ == spec_channel_list_url(channel_url@, kind),
{
    let v = str_to_chars(channel_url);
    let n = v.len();
    proof {
        assert(v@.subrange(0, n as int) =~= v@);
    }
    let h: usize = match crate::text::find_char(&v, 0, n, '#') {
        Some(k) => k,
        None => n,
    };
    let ghost wf = v@.subrange(0, h as int);
    proof {
        crate::text::lemma_find_from_subrange(v@, 0, h as int, 0, '?');
    }
    let q: usize = match crate::text::find_char(&v, 0, h, '?') {
        Some(k) => k,
        None => h,
    };
    let mut e: usize = q;
    while e > 0 && v[e - 1] == '/'
        invariant
            e <= q <= h <= n,
            n == v@.len(),
            v@ == channel_url@,
            wf == v@.subrange(0, h as int),
            rtrim_slashes(wf.subrange(0, q as int), q as int) == rtrim_slashes(
                wf.subrange(0, q as int),
                e as int,
            ),
        decreases e,
    {
        proof {
            assert(wf.subrange(0, q as int)[e - 1] == v@[e - 1]);
        }
        e = e - 1;
    }
    proof {
        if e > 0 {
            assert(wf.subrange(0, q as int)[e - 1] == v@[e - 1]);
            assert(rtrim_slashes(wf.subrange(0, q as int), e as int) == e as int);
        } else {
            assert(rtrim_slashes(wf.subrange(0, q as int), e as int) == 0);
        }
    }
    let ghost base = wf.subrange(0, e as int);
    proof {
        assert(base =~= wf.subrange(0, rtrim_slashes(wf.subrange(0, q as int), q as int)));
        assert(base =~= v@.subrange(0, e as int));
    }
    let suffix = match kind {
        crate::records::MediaCategory::Video => "/videos",
        crate::records::MediaCategory::Short => "/shorts",
    };
    let ghost suffix_chars = match kind {
        crate::records::MediaCategory::Video => "/videos"@,
        crate::records::MediaCategory::Short => "/shorts"@,
    };
    proof {
        reveal_strlit("/videos");
        reveal_strlit("/shorts");
    }
    let has_suffix = if e >= 7 {
        let tail = crate::text::chars_to_string(&v, e - 7, e);
        crate::text::str_eq(tail.as_str(), suffix)
    } else {
        false
    };
    proof {
        if e >= 7 {
            assert(v@.subrange(e - 7, e as int) =~= base.subrange(base.len() - 7, base.len() as int));
        }
    }
    let mut r = crate::text::chars_to_string(&v, 0, e);
    if !has_suffix {
        r.append(suffix);
    }
    let rest = crate::text::chars_to_string(&v, q, n);
    r.append(rest.as_str());
    proof {
        let frag = v@.subrange(h as int, n as int);
        let query = wf.subrange(q as int, h as int);
        assert(v@.subrange(q as int, n as int) =~= query + frag);
        assert(r@ =~= spec_channel_list_url(channel_url@, kind));
    }
    r
}


/// Start of the last whitespace-separated token before `j`.
pub open spec fn token_start(s: Seq<char>, j: int) -> int
    decreases j,
{
    if j <= 0 || j > s.len() {
        0
    } else if crate::text::is_ws(s[j - 1]) {
        j
    } else {
        token_start(s, j - 1)
    }
}

/// The id an archive line names: the last whitespace-separated token,
/// or nothing on a blank line.
pub open spec fn spec_archive_token(line: Seq<char>) -> Option<Seq<char>> {
    let t = spec_trim(line);
    if t.len() == 0 {
        None
    } else {
        Some(t.subrange(token_start(t, t.len() as int), t.len() as int))
    }
}

/// The ids of an archive file from position `from` on, line by line.
pub open spec fn spec_archive_entries_from(s: Seq<char>, from: int) -> Seq<Seq<char>>
    decreases s.len() - from + 1,
    via spec_archive_entries_from_dec
{
    if from < 0 || from >= s.len() {
        Seq::empty()
    } else {
        let end = match find_from(s, from, '\n') {
            Some(k) => k,
            None => s.len() as int,
        };
        let rest = spec_archive_entries_from(s, end + 1);
        match spec_archive_token(s.subrange(from, end)) {
            Some(id) => seq![id] + rest,
            None => rest,
        }
    }
}

#[via_fn]
proof fn spec_archive_entries_from_dec(s: Seq<char>, from: int) {
    crate::text::lemma_find_from_bounds(s, from, '\n');
}

/// The line appended to the archive for one downloaded id, in the
/// downloader's own `youtube {id}` format.
pub fn archive_line(video_id: &str) -> (r: String)
    ensures
        r@ == "youtube "@ + video_id@ + "\n"@,
{
    let mut r = String::from_str("youtube ");
    r.append(video_id);
    r.append("\n");
    r
}

/// Reads the ids already recorded in an archive file's text: the last
/// whitespace-separated token of every non-blank line, in order and
/// with repeats kept (membership is what matters).
pub fn load_archive_entries(content: &str) -> (r: Vec<String>)
    ensures
        r.deep_view() == spec_archive_entries_from(content@, 0),
{
    let v = str_to_chars(content);
    let n: usize = v.len();
    let mut r: Vec<String> = Vec::new();
    let mut pos: usize = 0;
    while pos < n
        invariant
            pos <= n,
            n == v@.len(),
            v@ == content@,
            r.deep_view() + spec_archive_entries_from(content@, pos as int)
                == spec_archive_entries_from(content@, 0),
        decreases n - pos,
    {
        proof {
            assert(v@.subrange(0, n as int) =~= v@);
        }
        let end: usize = match crate::text::find_char(&v, pos, n, '\n') {
            Some(k) => k,
            None => n,
        };
        let ghost line = v@.subrange(pos as int, end as int);
        let (lo, hi) = trim_range(&v, pos, end);
        let ghost t = spec_trim(line);
        if lo < hi {
            // Walk back over the last token.
            let mut ts: usize = hi;
            while ts > lo && !crate::text::is_ws_char(v[ts - 1])
                invariant
                    lo <= ts <= hi <= n,
                    n == v@.len(),
                    v@ == content@,
                    t == v@.subrange(lo as int, hi as int),
                    token_start(t, t.len() as int) == token_start(t, ts - lo),
                decreases ts,
            {
                proof {
                    assert(t[ts - lo - 1] == v@[ts - 1]);
                }
                ts = ts - 1;
            }
            proof {
                if ts > lo {
                    assert(t[ts - lo - 1] == v@[ts - 1]);
                    assert(token_start(t, ts - lo) == ts - lo);
                } else {
                    assert(token_start(t, ts - lo) == 0);
                }
                assert(v@.subrange(ts as int, hi as int) =~= t.subrange(
                    token_start(t, t.len() as int),
                    t.len() as int,
                ));
            }
            r.push(crate::text::chars_to_string(&v, ts, hi));
        }
        proof {
            assert(spec_archive_entries_from(content@, n as int) =~= Seq::<Seq<char>>::empty());
            assert(spec_archive_entries_from(content@, n as int + 1)
                =~= Seq::<Seq<char>>::empty());
            assert(r.deep_view() + spec_archive_entries_from(content@, end + 1)
                =~= spec_archive_entries_from(content@, 0));
        }
        if end == n {
            pos = n;
        } else {
            pos = end + 1;
        }
    }
    proof {
        assert(r.deep_view() + spec_archive_entries_from(content@, pos as int) =~= r.deep_view());
        assert(r.deep_view() =~= spec_archive_entries_from(content@, 0));
    }
    r
}

/// Whether an id is already archived.
pub fn archive_contains(entries: &Vec<String>, video_id: &str) -> (r: bool)
    ensures
        r == contains_str(entries.deep_view(), video_id@),
{
    contains_string(entries, video_id)
}


/// Which identifying field of a creator entry a collection reads.
#[derive(Clone, Copy, Debug, PartialEq, Eq, Structural)]
pub enum CreatorField {
    DisplayName,
    ChannelUrl,
    ChannelId,
}

/// The chosen field of one creator entry.
pub open spec fn creator_field(c: CreatorInfo, f: CreatorField) -> Option<Seq<char>> {
    match f {
        CreatorField::DisplayName => match c {
            CreatorInfo::Name(v) => Some(v@),
            CreatorInfo::Object { name, title, .. } => match name {
                Some(n) => Some(n@),
                None => match title {
                    Some(t) => Some(t@),
                    None => None,
                },
            },
        },
        CreatorField::ChannelUrl => spec_creator_url(c),
        CreatorField::ChannelId => match c {
            CreatorInfo::Name(_) => None,
            CreatorInfo::Object { id, channel_id, .. } => match id {
                Some(v) => Some(v@),
                None => match channel_id {
                    Some(v) => Some(v@),
                    None => None,
                },
            },
        },
    }
}

/// Left fold pushing the chosen field of each creator uniquely.
pub open spec fn fold_creator_fields(
    acc: Seq<Seq<char>>,
    cs: Seq<CreatorInfo>,
    f: CreatorField,
    i: int,
) -> Seq<Seq<char>>
    decreases cs.len() - i,
{
    if i < 0 || i >= cs.len() {
        acc
    } else {
        let step = match creator_field(cs[i], f) {
            Some(v) => spec_push_unique(acc, v),
            None => acc,
        };
        fold_creator_fields(step, cs, f, i + 1)
    }
}

/// Left fold pushing each string uniquely.
pub open spec fn fold_strings(acc: Seq<Seq<char>>, ss: Seq<Seq<char>>, i: int) -> Seq<Seq<char>>
    decreases ss.len() - i,
{
    if i < 0 || i >= ss.len() {
        acc
    } else {
        fold_strings(spec_push_unique(acc, ss[i]), ss, i + 1)
    }
}

fn creator_field_of<'a>(c: &'a CreatorInfo, f: CreatorField) -> (r: Option<&'a String>)
    ensures
        r.deep_view() == creator_field(*c, f),
{
    match f {
        CreatorField::DisplayName => c.name(),
        CreatorField::ChannelUrl => c.url(),
        CreatorField::ChannelId => c.id(),
    }
}

/// Pushes the chosen field of every creator of a list, uniquely.
fn push_unique_creator_list(out: &mut Vec<String>, cs: &Vec<CreatorInfo>, f: CreatorField)
    ensures
        final(out).deep_view() == fold_creator_fields(old(out).deep_view(), cs@, f, 0),
{
    let mut i: usize = 0;
    while i < cs.len()
        invariant
            i <= cs@.len(),
            fold_creator_fields(out.deep_view(), cs@, f, i as int) == fold_creator_fields(
                old(out).deep_view(),
                cs@,
                f,
                0,
            ),
        decreases cs@.len() - i,
    {
        match creator_field_of(&cs[i], f) {
            Some(v) => {
                let owned = v.clone();
                push_unique(out, owned.as_str());
            },
            None => {},
        }
        i = i + 1;
    }
}

/// Pushes the chosen field of every creator of an optional one-or-many
/// field, uniquely.
fn push_unique_creator_one_many(
    out: &mut Vec<String>,
    o: &Option<OneOrMany<CreatorInfo>>,
    f: CreatorField,
)
    ensures
        final(out).deep_view() == fold_creator_fields(old(out).deep_view(), creators_of(*o), f, 0),
{
    match o {
        None => {
            proof {
                assert(creators_of(*o) =~= Seq::<CreatorInfo>::empty());
            }
        },
        Some(OneOrMany::One(c)) => {
            proof {
                assert(creators_of(*o) =~= seq![*c]);
                assert(creators_of(*o)[0] == *c);
            }
            match creator_field_of(c, f) {
                Some(v) => {
                    let owned = v.clone();
                    push_unique(out, owned.as_str());
                },
                None => {},
            }
            proof {
                let cs2 = creators_of(*o);
                assert(fold_creator_fields(out.deep_view(), cs2, f, 1) == out.deep_view());
            }
        },
        Some(OneOrMany::Many(cs)) => {
            push_unique_creator_list(out, cs, f);
            proof {
                assert(creators_of(*o) == cs@);
            }
        },
    }
}

/// Pushes every string of an optional one-or-many field, uniquely.
fn push_unique_strings(out: &mut Vec<String>, o: &Option<OneOrMany<String>>)
    ensures
        final(out).deep_view() == fold_strings(old(out).deep_view(), opt_strings(*o), 0),
{
    match o {
        None => {
            proof {
                assert(opt_strings(*o) =~= Seq::<Seq<char>>::empty());
            }
        },
        Some(OneOrMany::One(v)) => {
            proof {
                assert(opt_strings(*o) =~= seq![v@]);
                assert(opt_strings(*o)[0] == v@);
            }
            let owned = v.clone();
            push_unique(out, owned.as_str());
            proof {
                let ss2 = opt_strings(*o);
                assert(fold_strings(out.deep_view(), ss2, 1) == out.deep_view());
            }
        },
        Some(OneOrMany::Many(vs)) => {
            let mut i: usize = 0;
            proof {
                assert(opt_strings(*o) == vs.deep_view());
            }
            while i < vs.len()
                invariant
                    i <= vs@.len(),
                    opt_strings(*o) == vs.deep_view(),
                    fold_strings(out.deep_view(), opt_strings(*o), i as int) == fold_strings(
                        old(out).deep_view(),
                        opt_strings(*o),
                        0,
                    ),
                decreases vs@.len() - i,
            {
                let owned = vs[i].clone();
                push_unique(out, owned.as_str());
                i = i + 1;
            }
        },
    }
}

/// The metadata record a video's creator, channel and uploader fields
/// are read from when its stored record is rebuilt.
pub struct VideoInfo {
    pub title: Option<String>,
    pub fulltitle: Option<String>,
    pub description: Option<String>,
    pub like_count: Option<i64>,
    pub dislike_count: Option<i64>,
    pub view_count: Option<i64>,
    pub upload_date: Option<String>,
    pub release_timestamp: Option<i64>,
    pub uploader: Option<OneOrMany<CreatorInfo>>,
    pub uploader_url: Option<OneOrMany<String>>,
    pub channel: Option<OneOrMany<CreatorInfo>>,
    pub channel_id: Option<OneOrMany<String>>,
    pub channel_url: Option<OneOrMany<String>>,
    pub creators: Option<Vec<CreatorInfo>>,
    pub channel_follower_count: Option<i64>,
    pub duration: Option<i64>,
    pub duration_string: Option<String>,
    pub tags: Option<Vec<String>>,
    pub comment_count: Option<i64>,
}

/// The creators list of a record, empty when absent.
pub open spec fn creators_list(info: VideoInfo) -> Seq<CreatorInfo> {
    match info.creators {
        None => Seq::empty(),
        Some(cs) => cs@,
    }
}

/// The unique display names of the creators list.
pub fn collect_creator_names(info: &VideoInfo) -> (r: Vec<String>)
    ensures
        r.deep_view() == fold_creator_fields(
            Seq::empty(),
            creators_list(*info),
            CreatorField::DisplayName,
            0,
        ),
{
    let mut names: Vec<String> = Vec::new();
    proof {
        assert(names.deep_view() =~= Seq::<Seq<char>>::empty());
    }
    match &info.creators {
        Some(cs) => push_unique_creator_list(&mut names, cs, CreatorField::DisplayName),
        None => {},
    }
    names
}

/// The unique display names of the channel field.
pub fn collect_channel_names(info: &VideoInfo) -> (r: Vec<String>)
    ensures
        r.deep_view() == fold_creator_fields(
            Seq::empty(),
            creators_of(info.channel),
            CreatorField::DisplayName,
            0,
        ),
{
    let mut names: Vec<String> = Vec::new();
    proof {
        assert(names.deep_view() =~= Seq::<Seq<char>>::empty());
    }
    push_unique_creator_one_many(&mut names, &info.channel, CreatorField::DisplayName);
    names
}

/// The unique display names of the uploader field.
pub fn collect_uploader_names(info: &VideoInfo) -> (r: Vec<String>)
    ensures
        r.deep_view() == fold_creator_fields(
            Seq::empty(),
            creators_of(info.uploader),
            CreatorField::DisplayName,
            0,
        ),
{
    let mut names: Vec<String> = Vec::new();
    proof {
        assert(names.deep_view() =~= Seq::<Seq<char>>::empty());
    }
    push_unique_creator_one_many(&mut names, &info.uploader, CreatorField::DisplayName);
    names
}

/// All channel ids a record names, unique, in the order the fields are
/// consulted: the channel-id strings, then channel, uploader and
/// creators entries.
pub fn collect_channel_ids(info: &VideoInfo) -> (r: Vec<String>)
    ensures
        r.deep_view() == fold_creator_fields(
            fold_creator_fields(
                fold_creator_fields(
                    fold_strings(Seq::empty(), opt_strings(info.channel_id), 0),
                    creators_of(info.channel),
                    CreatorField::ChannelId,
                    0,
                ),
                creators_of(info.uploader),
                CreatorField::ChannelId,
                0,
            ),
            creators_list(*info),
            CreatorField::ChannelId,
            0,
        ),
{
    let mut ids: Vec<String> = Vec::new();
    proof {
        assert(ids.deep_view() =~= Seq::<Seq<char>>::empty());
    }
    push_unique_strings(&mut ids, &info.channel_id);
    push_unique_creator_one_many(&mut ids, &info.channel, CreatorField::ChannelId);
    push_unique_creator_one_many(&mut ids, &info.uploader, CreatorField::ChannelId);
    match &info.creators {
        Some(cs) => push_unique_creator_list(&mut ids, cs, CreatorField::ChannelId),
        None => {},
    }
    ids
}

/// All channel URLs a record names, unique, in the order the fields are
/// consulted: the channel-URL strings, the channel entries, the
/// uploader-URL strings, the uploader entries, and the creators list.
pub fn collect_channel_urls(info: &VideoInfo) -> (r: Vec<String>)
    ensures
        r.deep_view() == fold_creator_fields(
            fold_creator_fields(
                fold_strings(
                    fold_creator_fields(
                        fold_strings(Seq::empty(), opt_strings(info.channel_url), 0),
                        creators_of(info.channel),
                        CreatorField::ChannelUrl,
                        0,
                    ),
                    opt_strings(info.uploader_url),
                    0,
                ),
                creators_of(info.uploader),
                CreatorField::ChannelUrl,
                0,
            ),
            creators_list(*info),
            CreatorField::ChannelUrl,
            0,
        ),
{
    let mut urls: Vec<String> = Vec::new();
    proof {
        assert(urls.deep_view() =~= Seq::<Seq<char>>::empty());
    }
    push_unique_strings(&mut urls, &info.channel_url);
    push_unique_creator_one_many(&mut urls, &info.channel, CreatorField::ChannelUrl);
    push_unique_strings(&mut urls, &info.uploader_url);
    push_unique_creator_one_many(&mut urls, &info.uploader, CreatorField::ChannelUrl);
    match &info.creators {
        Some(cs) => push_unique_creator_list(&mut urls, cs, CreatorField::ChannelUrl),
        None => {},
    }
    urls
}


/// The unique creator names of a record.
pub open spec fn spec_creator_names(info: VideoInfo) -> Seq<Seq<char>> {
    fold_creator_fields(Seq::empty(), creators_list(info), CreatorField::DisplayName, 0)
}

/// The unique channel names of a record.
pub open spec fn spec_channel_names(info: VideoInfo) -> Seq<Seq<char>> {
    fold_creator_fields(Seq::empty(), creators_of(info.channel), CreatorField::DisplayName, 0)
}

/// The unique uploader names of a record.
pub open spec fn spec_uploader_names(info: VideoInfo) -> Seq<Seq<char>> {
    fold_creator_fields(Seq::empty(), creators_of(info.uploader), CreatorField::DisplayName, 0)
}

/// The unique channel ids of a record, all fields consulted.
pub open spec fn spec_channel_ids(info: VideoInfo) -> Seq<Seq<char>> {
    fold_creator_fields(
        fold_creator_fields(
            fold_creator_fields(
                fold_strings(Seq::empty(), opt_strings(info.channel_id), 0),
                creators_of(info.channel),
                CreatorField::ChannelId,
                0,
            ),
            creators_of(info.uploader),
            CreatorField::ChannelId,
            0,
        ),
        creators_list(info),
        CreatorField::ChannelId,
        0,
    )
}

/// The unique channel URLs of a record, all fields consulted.
pub open spec fn spec_channel_urls(info: VideoInfo) -> Seq<Seq<char>> {
    fold_creator_fields(
        fold_creator_fields(
            fold_strings(
                fold_creator_fields(
                    fold_strings(Seq::empty(), opt_strings(info.channel_url), 0),
                    creators_of(info.channel),
                    CreatorField::ChannelUrl,
                    0,
                ),
                opt_strings(info.uploader_url),
                0,
            ),
            creators_of(info.uploader),
            CreatorField::ChannelUrl,
            0,
        ),
        creators_list(info),
        CreatorField::ChannelUrl,
        0,
    )
}

/// The merged author names: creators, then channel, then uploader names.
pub open spec fn spec_author_names(info: VideoInfo) -> Seq<Seq<char>> {
    spec_push_unique_all(
        spec_push_unique_all(
            spec_push_unique_all(Seq::empty(), spec_creator_names(info)),
            spec_channel_names(info),
        ),
        spec_uploader_names(info),
    )
}

/// A JSON string literal.
pub open spec fn json_quoted(s: Seq<char>) -> Seq<char> {
    "\""@ + crate::progress::json_escaped(s) + "\""@
}

/// The items of a JSON string array from index `i` on, each after its
/// separating comma except the first.
pub open spec fn json_items_from(ss: Seq<Seq<char>>, i: int) -> Seq<char>
    decreases ss.len() - i,
{
    if i < 0 || i >= ss.len() {
        Seq::empty()
    } else if i == 0 {
        json_quoted(ss[0]) + json_items_from(ss, 1)
    } else {
        ","@ + json_quoted(ss[i]) + json_items_from(ss, i + 1)
    }
}

/// A JSON array of strings.
pub open spec fn json_str_array(ss: Seq<Seq<char>>) -> Seq<char> {
    "["@ + json_items_from(ss, 0) + "]"@
}

/// A string or JSON null.
pub open spec fn json_opt_str(o: Option<Seq<char>>) -> Seq<char> {
    match o {
        Some(s) => json_quoted(s),
        None => "null"@,
    }
}

/// A decimal integer, negative values signed.
pub open spec fn json_int(n: int) -> Seq<char> {
    if n < 0 {
        "-"@ + dec_digits((-n) as nat)
    } else {
        dec_digits(n as nat)
    }
}

/// An integer or JSON null.
pub open spec fn json_opt_int(o: Option<i64>) -> Seq<char> {
    match o {
        Some(n) => json_int(n as int),
        None => "null"@,
    }
}

/// Appends a JSON string literal.
fn push_json_quoted(out: &mut String, s: &str)
    ensures
        final(out)@ == old(out)@ + json_quoted(s@),
{
    out.append("\"");
    crate::progress::push_escaped(out, s);
    out.append("\"");
    proof {
        assert(out@ =~= old(out)@ + json_quoted(s@));
    }
}

/// Appends a JSON array of strings.
fn push_json_str_array(out: &mut String, ss: &Vec<String>)
    ensures
        final(out)@ == old(out)@ + json_str_array(ss.deep_view()),
{
    let ghost items = ss.deep_view();
    out.append("[");
    let ghost base = out@;
    let mut i: usize = 0;
    while i < ss.len()
        invariant
            i <= ss@.len(),
            items == ss.deep_view(),
            out@ + json_items_from(items, i as int) == base + json_items_from(items, 0),
        decreases ss@.len() - i,
    {
        if i > 0 {
            out.append(",");
        }
        push_json_quoted(out, ss[i].as_str());
        proof {
            assert(out@ + json_items_from(items, i + 1) =~= base + json_items_from(items, 0));
        }
        i = i + 1;
    }
    out.append("]");
    proof {
        assert(json_items_from(items, ss@.len() as int) =~= Seq::<char>::empty());
        assert(out@ =~= old(out)@ + json_str_array(items));
    }
}

/// Appends a signed decimal integer.
fn push_json_int(out: &mut String, n: i64)
    ensures
        final(out)@ == old(out)@ + json_int(n as int),
{
    if n < 0 {
        out.append("-");
        let mag: u64 = if n == i64::MIN {
            9223372036854775808
        } else {
            (-n) as u64
        };
        push_dec(out, mag);
        proof {
            assert(out@ =~= old(out)@ + json_int(n as int));
        }
    } else {
        push_dec(out, n as u64);
    }
}

/// The serialized extras object carried on a stored record: every name,
/// id and URL the metadata offered, keys in sorted order as the record
/// stores them.
pub open spec fn spec_extras_json(info: VideoInfo) -> Seq<char> {
    let ids = spec_channel_ids(info);
    "{\"channelFieldNames\":"@ + json_str_array(spec_channel_names(info))
        + ",\"channelId\":"@ + json_opt_str(
        if ids.len() > 0 {
            Some(ids[0])
        } else {
            None
        },
    ) + ",\"channelIds\":"@ + json_str_array(ids) + ",\"channelNames\":"@ + json_str_array(
        spec_author_names(info),
    ) + ",\"channelUrls\":"@ + json_str_array(spec_channel_urls(info)) + ",\"commentCount\":"@
        + json_opt_int(info.comment_count) + ",\"creatorNames\":"@ + json_str_array(
        spec_creator_names(info),
    ) + ",\"uploaderNames\":"@ + json_str_array(spec_uploader_names(info)) + "}"@
}

/// Builds the serialized extras object from the collected lists.
fn extras_json(info: &VideoInfo) -> (r: String)
    ensures
        r@ == spec_extras_json(*info),
{
    let channel_names = collect_channel_names(info);
    let channel_ids = collect_channel_ids(info);
    let creators = collect_creator_names(info);
    let uploader_names = collect_uploader_names(info);
    let author_names = collect_author_names(&creators, &channel_names, &uploader_names);
    let channel_urls = collect_channel_urls(info);

    let mut r = String::from_str("{\"channelFieldNames\":");
    push_json_str_array(&mut r, &channel_names);
    r.append(",\"channelId\":");
    if channel_ids.len() > 0 {
        push_json_quoted(&mut r, channel_ids[0].as_str());
    } else {
        r.append("null");
    }
    r.append(",\"channelIds\":");
    push_json_str_array(&mut r, &channel_ids);
    r.append(",\"channelNames\":");
    push_json_str_array(&mut r, &author_names);
    r.append(",\"channelUrls\":");
    push_json_str_array(&mut r, &channel_urls);
    r.append(",\"commentCount\":");
    match info.comment_count {
        Some(n) => push_json_int(&mut r, n),
        None => r.append("null"),
    }
    r.append(",\"creatorNames\":");
    push_json_str_array(&mut r, &creators);
    r.append(",\"uploaderNames\":");
    push_json_str_array(&mut r, &uploader_names);
    r.append("}");
    proof {
        assert(r@ =~= spec_extras_json(*info));
    }
    r
}

/// The names joined for display: `A, B, C`.
pub open spec fn joined_names(ss: Seq<Seq<char>>, i: int) -> Seq<char>
    decreases ss.len() - i,
{
    if i < 0 || i >= ss.len() {
        Seq::empty()
    } else if i == 0 {
        ss[0] + joined_names(ss, 1)
    } else {
        ", "@ + ss[i] + joined_names(ss, i + 1)
    }
}

fn join_names(ss: &Vec<String>) -> (r: String)
    ensures
        r@ == joined_names(ss.deep_view(), 0),
{
    let ghost items = ss.deep_view();
    let mut r = String::new();
    let ghost base = r@;
    let mut i: usize = 0;
    while i < ss.len()
        invariant
            i <= ss@.len(),
            items == ss.deep_view(),
            r@ + joined_names(items, i as int) == base + joined_names(items, 0),
        decreases ss@.len() - i,
    {
        if i > 0 {
            r.append(", ");
        }
        r.append(ss[i].as_str());
        proof {
            assert(r@ + joined_names(items, i + 1) =~= base + joined_names(items, 0));
        }
        i = i + 1;
    }
    proof {
        assert(joined_names(items, ss@.len() as int) =~= Seq::<char>::empty());
        assert(r@ =~= joined_names(items, 0));
    }
    r
}

/// The title a record is stored under: the full title, else the plain
/// title, and the id itself when both are missing or the choice is
/// empty.
pub open spec fn spec_record_title(info: VideoInfo, id: Seq<char>) -> Seq<char> {
    let chosen = match info.fulltitle {
        Some(f) => Some(f@),
        None => match info.title {
            Some(t) => Some(t@),
            None => None,
        },
    };
    match chosen {
        Some(t) => if t.len() > 0 {
            t
        } else {
            id
        },
        None => id,
    }
}

/// The stored upload date: the eight-digit date when it names a real
/// day, else the release timestamp rendered by the clock library.
pub open spec fn spec_record_upload_date(info: VideoInfo) -> Option<Seq<char>> {
    let from_ts = match info.release_timestamp {
        Some(t) => rfc3339_of_epoch(t),
        None => None,
    };
    match info.upload_date {
        Some(u) => match spec_upload_date_iso(u@) {
            Some(x) => Some(x),
            None => from_ts,
        },
        None => from_ts,
    }
}

/// Assembles the stored record of one video from its fetched metadata
/// and the already-collected thumbnail URLs and playable sources.
pub fn build_video_record(
    video_id: &str,
    info: &VideoInfo,
    thumbnails: Vec<String>,
    sources: Vec<crate::records::VideoSource>,
) -> (r: crate::records::VideoRecord)
    ensures
        r@.videoid == video_id@,
        r@.title == spec_record_title(*info, video_id@),
        r@.description == (match info.description {
            Some(d) => d@,
            None => Seq::<char>::empty(),
        }),
        r@.likes == info.like_count,
        r@.dislikes == info.dislike_count,
        r@.views == info.view_count,
        r@.upload_date == spec_record_upload_date(*info),
        r@.author == (if spec_author_names(*info).len() > 0 {
            Some(joined_names(spec_author_names(*info), 0))
        } else {
            None::<Seq<char>>
        }),
        r@.subscriber_count == info.channel_follower_count,
        r@.duration == info.duration,
        r@.duration_text == (match info.duration_string {
            Some(s) => Some(s@),
            None => match info.duration {
                Some(d) => if d >= 0 {
                    Some(spec_format_duration(d as int))
                } else {
                    None
                },
                None => None,
            },
        }),
        r@.channel_url == (if spec_channel_urls(*info).len() > 0 {
            Some(spec_channel_urls(*info)[0])
        } else {
            None::<Seq<char>>
        }),
        r@.thumbnail_url == (if thumbnails.deep_view().len() > 0 {
            Some(thumbnails.deep_view()[0])
        } else {
            None::<Seq<char>>
        }),
        r@.tags == (match info.tags {
            Some(ts) => ts.deep_view(),
            None => Seq::<Seq<char>>::empty(),
        }),
        r@.thumbnails == thumbnails.deep_view(),
        r@.extras == spec_extras_json(*info),
        r@.sources == sources.deep_view(),
{
    let title = match &info.fulltitle {
        Some(f) => f.clone(),
        None => match &info.title {
            Some(t) => t.clone(),
            None => String::from_str(video_id),
        },
    };
    let title = if title.as_str().unicode_len() > 0 {
        title
    } else {
        String::from_str(video_id)
    };
    let description = match &info.description {
        Some(d) => d.clone(),
        None => String::new(),
    };
    let upload_date = match &info.upload_date {
        Some(u) => match upload_date_to_iso(u.as_str()) {
            Some(x) => Some(x),
            None => match info.release_timestamp {
                Some(t) => timestamp_to_iso(t),
                None => None,
            },
        },
        None => match info.release_timestamp {
            Some(t) => timestamp_to_iso(t),
            None => None,
        },
    };
    let creators = collect_creator_names(info);
    let channel_names = collect_channel_names(info);
    let uploader_names = collect_uploader_names(info);
    let author_names = collect_author_names(&creators, &channel_names, &uploader_names);
    let author = if author_names.len() > 0 {
        Some(join_names(&author_names))
    } else {
        None
    };
    let duration_text = match &info.duration_string {
        Some(s) => Some(s.clone()),
        None => match info.duration {
            Some(d) => if d >= 0 {
                Some(format_duration(d))
            } else {
                None
            },
            None => None,
        },
    };
    let channel_urls = collect_channel_urls(info);
    let channel_url = if channel_urls.len() > 0 {
        Some(channel_urls[0].clone())
    } else {
        None
    };
    let thumbnail_url = if thumbnails.len() > 0 {
        Some(thumbnails[0].clone())
    } else {
        None
    };
    let tags = match &info.tags {
        Some(ts) => crate::records::clone_strings(ts),
        None => Vec::new(),
    };
    let extras = extras_json(info);
    proof {
        if info.tags is None {
            assert(tags.deep_view() =~= Seq::<Seq<char>>::empty());
        }
    }
    crate::records::VideoRecord {
        videoid: String::from_str(video_id),
        title,
        description,
        likes: info.like_count,
        dislikes: info.dislike_count,
        views: info.view_count,
        upload_date,
        author,
        subscriber_count: info.channel_follower_count,
        duration: info.duration,
        duration_text,
        channel_url,
        thumbnail_url,
        tags,
        thumbnails,
        extras,
        sources,
    }
}


/// One subtitle variant as the metadata lists it.
pub struct SubtitleMeta {
    pub url: Option<String>,
    pub name: Option<String>,
}

/// The display name of a language's first listed variant.
pub open spec fn first_meta_name(es: Seq<SubtitleMeta>) -> Option<Seq<char>> {
    if es.len() > 0 {
        match es[0].name {
            Some(n) => Some(n@),
            None => None,
        }
    } else {
        None
    }
}

/// The name map after the manually written tracks from position `i` on:
/// each named language bound to its display name, later entries
/// shadowing earlier ones.
pub open spec fn fold_manual_names(
    acc: Seq<(Seq<char>, Seq<char>)>,
    m: Seq<(String, Vec<SubtitleMeta>)>,
    i: int,
) -> Seq<(Seq<char>, Seq<char>)>
    decreases m.len() - i,
{
    if i < 0 || i >= m.len() {
        acc
    } else {
        let step = match first_meta_name(m[i].1@) {
            Some(nm) => acc.insert(0, (m[i].0@, nm)),
            None => acc,
        };
        fold_manual_names(step, m, i + 1)
    }
}

/// The name map after the automatic captions from position `i` on: a
/// language only gains a name it does not already have.
pub open spec fn fold_auto_names(
    acc: Seq<(Seq<char>, Seq<char>)>,
    m: Seq<(String, Vec<SubtitleMeta>)>,
    i: int,
) -> Seq<(Seq<char>, Seq<char>)>
    decreases m.len() - i,
{
    if i < 0 || i >= m.len() {
        acc
    } else {
        let step = match first_meta_name(m[i].1@) {
            Some(nm) => if crate::cache::assoc_get(acc, m[i].0@) is Some {
                acc
            } else {
                acc.push((m[i].0@, nm))
            },
            None => acc,
        };
        fold_auto_names(step, m, i + 1)
    }
}

/// Builds the language-code-to-display-name map from the manual and
/// automatic subtitle listings; manual names win.
pub fn subtitle_name_map(
    manual: &Vec<(String, Vec<SubtitleMeta>)>,
    auto: &Vec<(String, Vec<SubtitleMeta>)>,
) -> (r: Vec<(String, String)>)
    ensures
        r.deep_view() == fold_auto_names(fold_manual_names(Seq::empty(), manual@, 0), auto@, 0),
{
    let mut names: Vec<(String, String)> = Vec::new();
    proof {
        assert(names.deep_view() =~= Seq::<(Seq<char>, Seq<char>)>::empty());
    }
    let mut i: usize = 0;
    while i < manual.len()
        invariant
            i <= manual@.len(),
            fold_manual_names(names.deep_view(), manual@, i as int) == fold_manual_names(
                Seq::empty(),
                manual@,
                0,
            ),
        decreases manual@.len() - i,
    {
        let entries = &manual[i].1;
        if entries.len() > 0 {
            match &entries[0].name {
                Some(nm) => {
                    let ghost prev = names.deep_view();
                    names.insert(0, (manual[i].0.clone(), nm.clone()));
                    proof {
                        assert(names.deep_view() =~= prev.insert(
                            0,
                            (manual@[i as int].0@, nm@),
                        ));
                    }
                },
                None => {},
            }
        }
        i = i + 1;
    }
    let ghost after_manual = names.deep_view();
    let mut j: usize = 0;
    while j < auto.len()
        invariant
            j <= auto@.len(),
            fold_auto_names(names.deep_view(), auto@, j as int) == fold_auto_names(
                after_manual,
                auto@,
                0,
            ),
        decreases auto@.len() - j,
    {
        let entries = &auto[j].1;
        if entries.len() > 0 {
            match &entries[0].name {
                Some(nm) => {
                    let code = auto[j].0.clone();
                    if lookup_display(&names, code.as_str()).is_none() {
                        let ghost prev = names.deep_view();
                        names.push((code, nm.clone()));
                        proof {
                            assert(names.deep_view() =~= prev.push((auto@[j as int].0@, nm@)));
                        }
                    }
                },
                None => {},
            }
        }
        j = j + 1;
    }
    names
}

/// The display name recorded for a language code, if any.
pub fn lookup_display(map: &Vec<(String, String)>, code: &str) -> (r: Option<String>)
    ensures
        r.deep_view() == crate::cache::assoc_get(map.deep_view(), code@),
{
    let ghost m = map.deep_view();
    proof {
        assert(m.skip(0) =~= m);
    }
    let mut i: usize = 0;
    while i < map.len()
        invariant
            i <= map@.len(),
            m == map.deep_view(),
            crate::cache::assoc_get(m, code@) == crate::cache::assoc_get(m.skip(i as int), code@),
        decreases map@.len() - i,
    {
        proof {
            assert(m.skip(i as int).drop_first() =~= m.skip(i + 1));
        }
        if str_eq(map[i].0.as_str(), code) {
            proof {
                assert(m.skip(i as int)[0] == m[i as int]);
            }
            return Some(map[i].1.clone());
        }
        i = i + 1;
    }
    None
}

/// The subtitle track one directory entry serves, if it belongs to this
/// video: the file must be named `{id}.{code}.{ext}`; its display name
/// comes from the name map, or the uppercased code.
pub open spec fn spec_subtitle_entry(
    name: Seq<char>,
    id: Seq<char>,
    slug: Seq<char>,
    dir: Seq<char>,
    map: Seq<(Seq<char>, Seq<char>)>,
) -> Option<crate::records::SubtitleTrackView> {
    match crate::text::rfind_before(name, name.len() as int, '.') {
        None => None,
        Some(dot) => {
            let without = name.subrange(0, dot);
            let prefix = id + "."@;
            if without.len() >= prefix.len() && without.subrange(0, prefix.len() as int)
                == prefix {
                let code = without.subrange(prefix.len() as int, without.len() as int);
                let display = match crate::cache::assoc_get(map, code) {
                    Some(d) => d,
                    None => upper_of(code),
                };
                Some(
                    crate::records::SubtitleTrackView {
                        code,
                        name: display,
                        url: "/api/"@ + slug + "/"@ + id + "/subtitles/"@ + code,
                        path: Some(dir + "/"@ + name),
                    },
                )
            } else {
                None
            }
        },
    }
}

/// The tracks the directory's files serve, from position `i` on.
pub open spec fn spec_subtitle_tracks_from(
    names: Seq<Seq<char>>,
    i: int,
    id: Seq<char>,
    slug: Seq<char>,
    dir: Seq<char>,
    map: Seq<(Seq<char>, Seq<char>)>,
) -> Seq<crate::records::SubtitleTrackView>
    decreases names.len() - i,
{
    if i < 0 || i >= names.len() {
        Seq::empty()
    } else {
        let rest = spec_subtitle_tracks_from(names, i + 1, id, slug, dir, map);
        match spec_subtitle_entry(names[i], id, slug, dir, map) {
            Some(t) => seq![t] + rest,
            None => rest,
        }
    }
}

/// Gathers the subtitle tracks stored on disk for one video: the file
/// names of its subtitles directory, each resolving to a track with its
/// download URL and its recorded path. Remote-only tracks are not
/// listed; a video with no local files has an empty collection.
pub fn collect_subtitles(
    video_id: &str,
    file_names: &Vec<String>,
    dir: &str,
    names_map: &Vec<(String, String)>,
    kind: MediaCategory,
) -> (r: crate::records::SubtitleCollection)
    ensures
        r@.videoid == video_id@,
        r@.languages == spec_subtitle_tracks_from(
            file_names.deep_view(),
            0,
            video_id@,
            crate::media::media_slug_chars(kind),
            dir@,
            names_map.deep_view(),
        ),
{
    let slug = crate::media::media_kind_slug(kind);
    let ghost names = file_names.deep_view();
    let ghost slug_s = crate::media::media_slug_chars(kind);
    let ghost map = names_map.deep_view();
    let mut prefix = String::from_str(video_id);
    prefix.append(".");
    let plen: usize = prefix.as_str().unicode_len();
    let mut tracks: Vec<crate::records::SubtitleTrack> = Vec::new();
    let mut i: usize = 0;
    while i < file_names.len()
        invariant
            i <= file_names@.len(),
            names == file_names.deep_view(),
            map == names_map.deep_view(),
            slug_s == crate::media::media_slug_chars(kind),
            slug@ == slug_s,
            prefix@ == video_id@ + "."@,
            plen == prefix@.len(),
            tracks.deep_view() + spec_subtitle_tracks_from(names, i as int, video_id@, slug_s, dir@, map)
                == spec_subtitle_tracks_from(names, 0, video_id@, slug_s, dir@, map),
        decreases file_names@.len() - i,
    {
        let name = &file_names[i];
        proof {
            assert(names[i as int] == name@);
        }
        let chars = crate::text::str_to_chars(name.as_str());
        let nlen = chars.len();
        match crate::media::rfind_last_dot_pub(&chars) {
            None => {},
            Some(dot) => {
                let without = crate::text::chars_to_string(&chars, 0, dot);
                if str_starts_with(without.as_str(), prefix.as_str()) {
                    let wlen: usize = without.as_str().unicode_len();
                    let code = String::from_str(without.as_str().substring_char(plen, wlen));
                    proof {
                        assert(code@ =~= name@.subrange(0, dot as int).subrange(
                            plen as int,
                            dot as int,
                        ));
                    }
                    let display = match lookup_display(names_map, code.as_str()) {
                        Some(d) => d,
                        None => to_ascii_upper(code.as_str()),
                    };
                    let mut url = String::from_str("/api/");
                    url.append(slug);
                    url.append("/");
                    url.append(video_id);
                    url.append("/subtitles/");
                    url.append(code.as_str());
                    let mut path = String::from_str(dir);
                    path.append("/");
                    path.append(name.as_str());
                    let ghost prev = tracks.deep_view();
                    tracks.push(
                        crate::records::SubtitleTrack { code, name: display, url, path: Some(path) },
                    );
                    proof {
                        assert(spec_subtitle_entry(names[i as int], video_id@, slug_s, dir@, map)
                            matches Some(t) && tracks.deep_view() =~= prev.push(t));
                    }
                }
            },
        }
        i = i + 1;
    }
    proof {
        assert(spec_subtitle_tracks_from(names, names.len() as int, video_id@, slug_s, dir@, map)
            =~= Seq::<crate::records::SubtitleTrackView>::empty());
        assert(tracks.deep_view() =~= spec_subtitle_tracks_from(
            names,
            0,
            video_id@,
            slug_s,
            dir@,
            map,
        ));
    }
    crate::records::SubtitleCollection { videoid: String::from_str(video_id), languages: tracks }
}


/// One format as the metadata lists it; the frame rate is carried as
/// its IEEE-754 bits.
pub struct FormatMeta {
    pub format_id: Option<String>,
    pub format_note: Option<String>,
    pub width: Option<i64>,
    pub height: Option<i64>,
    pub fps_bits: Option<u64>,
    pub ext: Option<String>,
    pub vcodec: Option<String>,
    pub acodec: Option<String>,
    pub filesize: Option<i64>,
    pub filesize_approx: Option<i64>,
    pub dynamic_range: Option<String>,
}

/// A codec field that names no codec at all.
pub open spec fn codec_is_none(c: Option<String>) -> bool {
    match c {
        Some(v) => crate::media::ci_eq(v@, "none"@),
        None => false,
    }
}

/// The file name a format is stored under: `{id}_{slugged format id}`
/// with the container extension replacing anything after a dot, as a
/// path's extension would be set.
pub open spec fn spec_format_file_name(id: Seq<char>, sanitized: Seq<char>, ext: Seq<char>) -> Seq<
    char,
> {
    let base = id + "_"@ + sanitized;
    let stem = match crate::text::rfind_before(base, base.len() as int, '.') {
        Some(dot) => if dot > 0 {
            base.subrange(0, dot)
        } else {
            base
        },
        None => base,
    };
    stem + "."@ + ext
}

/// The quality label a format is served under: its own note, else the
/// label built from height and dynamic range; a nonsensical negative
/// height is treated as absent.
pub open spec fn spec_format_label(f: FormatMeta) -> Option<Seq<char>> {
    match f.format_note {
        Some(n) => Some(n@),
        None => {
            let range_part = match f.dynamic_range {
                Some(dr) => dr@.len() > 0,
                None => false,
            };
            let h_ok = match f.height {
                Some(h) => h >= 0,
                None => false,
            };
            if h_ok && range_part {
                Some(dec_digits(f.height->0 as nat) + "p "@ + f.dynamic_range->0@)
            } else if h_ok {
                Some(dec_digits(f.height->0 as nat) + "p"@)
            } else if range_part {
                Some(f.dynamic_range->0@)
            } else {
                None
            }
        },
    }
}

/// The MIME type of a container extension, as `mime_from_extension`
/// renders it.
pub open spec fn spec_ext_mime(ext: Seq<char>) -> Seq<char> {
    if ext == "mp4"@ {
        "video/mp4"@
    } else if ext == "mkv"@ {
        "video/x-matroska"@
    } else if ext == "webm"@ {
        "video/webm"@
    } else {
        "video/"@ + ext
    }
}

/// The source one listed format yields, when it names a format, is not
/// audio- or video-only, and its file is among the ones on disk.
pub open spec fn spec_source_of_format(
    f: FormatMeta,
    id: Seq<char>,
    slug: Seq<char>,
    dir: Seq<char>,
    existing: Seq<Seq<char>>,
) -> Option<crate::records::VideoSourceView> {
    match f.format_id {
        None => None,
        Some(fid) => {
            if codec_is_none(f.vcodec) || codec_is_none(f.acodec) {
                None
            } else {
                let sanitized = crate::media::slug_of(fid@);
                let ext = match f.ext {
                    Some(e) => e@,
                    None => "mp4"@,
                };
                let file_name = spec_format_file_name(id, sanitized, ext);
                if contains_str(existing, file_name) {
                    Some(
                        crate::records::VideoSourceView {
                            format_id: fid@,
                            quality_label: spec_format_label(f),
                            width: f.width,
                            height: f.height,
                            fps_bits: f.fps_bits,
                            mime_type: Some(spec_ext_mime(ext)),
                            ext: Some(ext),
                            file_size: match f.filesize {
                                Some(n) => Some(n),
                                None => f.filesize_approx,
                            },
                            url: "/api/"@ + slug + "/"@ + id + "/streams/"@ + sanitized,
                            path: Some(dir + "/"@ + file_name),
                        },
                    )
                } else {
                    None
                }
            }
        },
    }
}

/// The sources of all listed formats from position `i` on.
pub open spec fn spec_sources_from(
    formats: Seq<FormatMeta>,
    i: int,
    id: Seq<char>,
    slug: Seq<char>,
    dir: Seq<char>,
    existing: Seq<Seq<char>>,
) -> Seq<crate::records::VideoSourceView>
    decreases formats.len() - i,
{
    if i < 0 || i >= formats.len() {
        Seq::empty()
    } else {
        let rest = spec_sources_from(formats, i + 1, id, slug, dir, existing);
        match spec_source_of_format(formats[i], id, slug, dir, existing) {
            Some(src) => seq![src] + rest,
            None => rest,
        }
    }
}

/// Builds the playable sources of one video from its listed formats:
/// formats without an id and audio- or video-only streams are skipped,
/// and only renditions whose muxed file is actually on disk (named in
/// `existing`, the files of `{dir}`) are exposed.
pub fn collect_sources(
    video_id: &str,
    formats: &Vec<FormatMeta>,
    existing: &Vec<String>,
    dir: &str,
    kind: MediaCategory,
) -> (r: Vec<crate::records::VideoSource>)
    ensures
        r.deep_view() == spec_sources_from(
            formats@,
            0,
            video_id@,
            crate::media::media_slug_chars(kind),
            dir@,
            existing.deep_view(),
        ),
{
    let slug = crate::media::media_kind_slug(kind);
    let ghost slug_s = crate::media::media_slug_chars(kind);
    let ghost exist = existing.deep_view();
    let mut sources: Vec<crate::records::VideoSource> = Vec::new();
    let mut i: usize = 0;
    while i < formats.len()
        invariant
            i <= formats@.len(),
            exist == existing.deep_view(),
            slug_s == crate::media::media_slug_chars(kind),
            slug@ == slug_s,
            sources.deep_view() + spec_sources_from(formats@, i as int, video_id@, slug_s, dir@, exist)
                == spec_sources_from(formats@, 0, video_id@, slug_s, dir@, exist),
        decreases formats@.len() - i,
    {
        let f = &formats[i];
        match &f.format_id {
            None => {},
            Some(fid) => {
                let vcodec_none = match &f.vcodec {
                    Some(v) => crate::media::str_eq_ci(v.as_str(), "none"),
                    None => false,
                };
                let acodec_none = match &f.acodec {
                    Some(v) => crate::media::str_eq_ci(v.as_str(), "none"),
                    None => false,
                };
                if !vcodec_none && !acodec_none {
                    let sanitized = sanitize_format_id(fid.as_str());
                    let ext = match &f.ext {
                        Some(e) => e.clone(),
                        None => String::from_str("mp4"),
                    };
                    let mut base = String::from_str(video_id);
                    base.append("_");
                    base.append(sanitized.as_str());
                    let bchars = crate::text::str_to_chars(base.as_str());
                    let blen = bchars.len();
                    let stem_end: usize = match crate::media::rfind_last_dot_pub(&bchars) {
                        Some(dot) => if dot > 0 {
                            dot
                        } else {
                            blen
                        },
                        None => blen,
                    };
                    let mut file_name = crate::text::chars_to_string(&bchars, 0, stem_end);
                    file_name.append(".");
                    file_name.append(ext.as_str());
                    proof {
                        assert(file_name@ =~= spec_format_file_name(
                            video_id@,
                            crate::media::slug_of(fid@),
                            ext@,
                        ));
                    }
                    if contains_string(existing, file_name.as_str()) {
                        let height_for_label = match f.height {
                            Some(h) => if h >= 0 {
                                Some(h)
                            } else {
                                None
                            },
                            None => None,
                        };
                        let quality_label = match &f.format_note {
                            Some(n) => Some(n.clone()),
                            None => format_quality_label(
                                height_for_label,
                                match &f.dynamic_range {
                                    Some(dr) => Some(dr.as_str()),
                                    None => None,
                                },
                            ),
                        };
                        let mime_type = Some(mime_from_extension(ext.as_str()));
                        let file_size = match f.filesize {
                            Some(n) => Some(n),
                            None => f.filesize_approx,
                        };
                        let mut url = String::from_str("/api/");
                        url.append(slug);
                        url.append("/");
                        url.append(video_id);
                        url.append("/streams/");
                        url.append(sanitized.as_str());
                        let mut path = String::from_str(dir);
                        path.append("/");
                        path.append(file_name.as_str());
                        let ghost prev = sources.deep_view();
                        sources.push(
                            crate::records::VideoSource {
                                format_id: fid.clone(),
                                quality_label,
                                width: f.width,
                                height: f.height,
                                fps_bits: f.fps_bits,
                                mime_type,
                                ext: Some(ext),
                                file_size,
                                url,
                                path: Some(path),
                            },
                        );
                        proof {
                            assert(spec_source_of_format(formats@[i as int], video_id@, slug_s, dir@, exist)
                                matches Some(src) && sources.deep_view() =~= prev.push(src));
                        }
                    }
                }
            },
        }
        i = i + 1;
    }
    proof {
        assert(spec_sources_from(formats@, formats@.len() as int, video_id@, slug_s, dir@, exist)
            =~= Seq::<crate::records::VideoSourceView>::empty());
        assert(sources.deep_view() =~= spec_sources_from(
            formats@,
            0,
            video_id@,
            slug_s,
            dir@,
            exist,
        ));
    }
    sources
}


/// Code-point order on strings — the order their UTF-8 bytes sort in.
pub open spec fn chars_lt(a: Seq<char>, b: Seq<char>) -> bool
    decreases a.len(),
{
    if b.len() == 0 {
        false
    } else if a.len() == 0 {
        true
    } else if a[0] != b[0] {
        (a[0] as u32) < (b[0] as u32)
    } else {
        chars_lt(a.drop_first(), b.drop_first())
    }
}

/// A sorted sequence with a new string placed at its position; an equal
/// string is not doubled.
pub open spec fn insert_sorted_spec(v: Seq<Seq<char>>, s: Seq<char>) -> Seq<Seq<char>>
    decreases v.len(),
{
    if v.len() == 0 {
        seq![s]
    } else if chars_lt(v[0], s) {
        seq![v[0]] + insert_sorted_spec(v.drop_first(), s)
    } else if v[0] == s {
        v
    } else {
        seq![s] + v
    }
}

/// The sorted set of the strings from position `i` on.
pub open spec fn sorted_set_from(names: Seq<Seq<char>>, i: int, acc: Seq<Seq<char>>) -> Seq<
    Seq<char>,
>
    decreases names.len() - i,
{
    if i < 0 || i >= names.len() {
        acc
    } else {
        sorted_set_from(names, i + 1, insert_sorted_spec(acc, names[i]))
    }
}

/// Placing a string behind `k` strings below it matches the recursive
/// picture of sorted insertion.
proof fn lemma_insert_sorted_at(v: Seq<Seq<char>>, s: Seq<char>, k: int)
    requires
        0 <= k <= v.len(),
        forall|j: int| 0 <= j < k ==> chars_lt(#[trigger] v[j], s),
        k < v.len() ==> !chars_lt(v[k], s),
    ensures
        insert_sorted_spec(v, s) == (if k < v.len() && v[k] == s {
            v
        } else {
            v.insert(k, s)
        }),
    decreases k,
{
    if v.len() == 0 {
        assert(insert_sorted_spec(v, s) =~= v.insert(0, s));
    } else if k == 0 {
        if v[0] == s {
        } else {
            assert(insert_sorted_spec(v, s) =~= v.insert(0, s));
        }
    } else {
        let tail = v.drop_first();
        assert(forall|j: int| 0 <= j < k - 1 ==> chars_lt(#[trigger] tail[j], s));
        lemma_insert_sorted_at(tail, s, k - 1);
        if k < v.len() && v[k] == s {
            assert(tail[k - 1] == v[k]);
            assert(insert_sorted_spec(v, s) =~= v);
        } else {
            assert(insert_sorted_spec(v, s) =~= v.insert(k, s)) by {
                assert(insert_sorted_spec(v, s) == seq![v[0]] + insert_sorted_spec(tail, s));
                assert(insert_sorted_spec(tail, s) == tail.insert(k - 1, s));
            }
        }
    }
}

/// Whether `a` sorts strictly below `b`.
pub fn str_lt(a: &str, b: &str) -> (r: bool)
    ensures
        r == chars_lt(a@, b@),
{
    let na: usize = a.unicode_len();
    let nb: usize = b.unicode_len();
    proof {
        assert(a@.skip(0) =~= a@);
        assert(b@.skip(0) =~= b@);
    }
    let mut i: usize = 0;
    while i < na && i < nb
        invariant
            i <= na,
            i <= nb,
            na == a@.len(),
            nb == b@.len(),
            chars_lt(a@, b@) == chars_lt(a@.skip(i as int), b@.skip(i as int)),
        decreases na - i,
    {
        proof {
            assert(a@.skip(i as int)[0] == a@[i as int]);
            assert(b@.skip(i as int)[0] == b@[i as int]);
            assert(a@.skip(i as int).drop_first() =~= a@.skip(i + 1));
            assert(b@.skip(i as int).drop_first() =~= b@.skip(i + 1));
        }
        let ca = a.get_char(i) as u32;
        let cb = b.get_char(i) as u32;
        if ca != cb {
            return ca < cb;
        }
        i = i + 1;
    }
    proof {
        assert(a@.skip(i as int).len() == na - i);
        assert(b@.skip(i as int).len() == nb - i);
    }
    na < nb
}

/// Places a name into a sorted list of distinct names, skipping an
/// equal one.
pub fn insert_sorted(list: &mut Vec<String>, value: &str)
    ensures
        final(list).deep_view() == insert_sorted_spec(old(list).deep_view(), value@),
{
    let ghost v = list.deep_view();
    let mut k: usize = 0;
    while k < list.len() && str_lt(list[k].as_str(), value)
        invariant
            k <= list@.len(),
            v == list.deep_view(),
            list@.len() == v.len(),
            forall|j: int| 0 <= j < k ==> chars_lt(#[trigger] v[j], value@),
        decreases list@.len() - k,
    {
        k = k + 1;
    }
    if k < list.len() && str_eq(list[k].as_str(), value) {
        proof {
            lemma_insert_sorted_at(v, value@, k as int);
        }
        return ;
    }
    proof {
        if k < v.len() {
            assert(!chars_lt(v[k as int], value@));
        }
        lemma_insert_sorted_at(v, value@, k as int);
    }
    let ghost prev = list.deep_view();
    list.insert(k, String::from_str(value));
    proof {
        assert(list.deep_view() =~= prev.insert(k as int, value@));
    }
}

/// The thumbnail URLs of one video: its thumbnail directory's file
/// names in sorted order (a directory lists each name once), each under
/// the thumbnails endpoint.
pub fn collect_thumbnails(video_id: &str, file_names: &Vec<String>, kind: MediaCategory) -> (r:
    Vec<String>)
    ensures
        r.deep_view() == sorted_set_from(file_names.deep_view(), 0, Seq::empty()).map_values(
            |name: Seq<char>|
                "/api/"@ + crate::media::media_slug_chars(kind) + "/"@ + video_id@
                    + "/thumbnails/"@ + name,
        ),
{
    let slug = crate::media::media_kind_slug(kind);
    let ghost names = file_names.deep_view();
    let mut sorted: Vec<String> = Vec::new();
    proof {
        assert(sorted.deep_view() =~= Seq::<Seq<char>>::empty());
    }
    let mut i: usize = 0;
    while i < file_names.len()
        invariant
            i <= file_names@.len(),
            names == file_names.deep_view(),
            sorted_set_from(names, i as int, sorted.deep_view()) == sorted_set_from(
                names,
                0,
                Seq::empty(),
            ),
        decreases file_names@.len() - i,
    {
        proof {
            assert(names[i as int] == file_names@[i as int]@);
        }
        insert_sorted(&mut sorted, file_names[i].as_str());
        i = i + 1;
    }
    let ghost target = sorted_set_from(names, 0, Seq::empty());
    let mut r: Vec<String> = Vec::new();
    let mut j: usize = 0;
    while j < sorted.len()
        invariant
            j <= sorted@.len(),
            sorted.deep_view() == target,
            sorted@.len() == target.len(),
            slug@ == crate::media::media_slug_chars(kind),
            r@.len() == j,
            forall|m: int|
                0 <= m < j ==> #[trigger] r@[m]@ == "/api/"@ + crate::media::media_slug_chars(kind)
                    + "/"@ + video_id@ + "/thumbnails/"@ + target[m],
        decreases sorted@.len() - j,
    {
        let mut url = String::from_str("/api/");
        url.append(slug);
        url.append("/");
        url.append(video_id);
        url.append("/thumbnails/");
        url.append(sorted[j].as_str());
        proof {
            assert(sorted[j as int]@ == target[j as int]);
        }
        r.push(url);
        j = j + 1;
    }
    proof {
        assert(r.deep_view() =~= target.map_values(
            |name: Seq<char>|
                "/api/"@ + crate::media::media_slug_chars(kind) + "/"@ + video_id@
                    + "/thumbnails/"@ + name,
        ));
    }
    r
}

} // verus!
