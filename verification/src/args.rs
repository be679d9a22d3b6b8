//! Command-line handling for the downloader and refresh binaries: a walk
//! over the argument list building up overrides and targets, then the
//! root directories resolved through the configuration layers. The
//! process hands in its argument list and environment as plain values.

use vstd::prelude::*;

use crate::config::{root_of, spec_parse_env};
use crate::downloader::lower_of;
use crate::records::MediaCategory;
use crate::text::{spec_trim, str_eq, str_starts_with};

verus! {

/// Why an argument list was refused.
#[derive(Clone, Copy, Debug, PartialEq, Eq, Structural)]
pub enum ArgsErrorKind {
    MissingMediaRootValue,
    MissingWwwRootValue,
    MissingVideoIdValue,
    MissingMediaKindValue,
    MissingProgressFileValue,
    UnknownArgument,
    UnknownMediaKind,
    DuplicateChannel,
    DuplicateVideoId,
    ChannelAndVideoId,
    KindWithoutVideoId,
    NothingRequested,
    MissingPortValue,
    MissingHostValue,
    InvalidPort,
    MissingMediaRoot,
    MissingWwwRoot,
}

impl ArgsErrorKind {
    pub fn message(&self) -> (r: &'static str)
        ensures
            *self is MissingMediaRootValue ==> r@ == "--media-root requires a value"@,
            *self is MissingWwwRootValue ==> r@ == "--www-root requires a value"@,
            *self is MissingVideoIdValue ==> r@ == "--video-id requires a value"@,
            *self is MissingMediaKindValue ==> r@ == "--media-kind requires a value"@,
            *self is MissingProgressFileValue ==> r@ == "--progress-file requires a value"@,
            *self is UnknownArgument ==> r@ == "unknown argument"@,
            *self is UnknownMediaKind ==> r@ == "unknown media kind"@,
            *self is DuplicateChannel ==> r@ == "channel URL specified multiple times"@,
            *self is DuplicateVideoId ==> r@ == "video id specified multiple times"@,
            *self is ChannelAndVideoId ==> r@
                == "cannot provide both a channel URL and --video-id"@,
            *self is KindWithoutVideoId ==> r@
                == "--media-kind can only be used with --video-id"@,
            *self is NothingRequested ==> r@ == "a channel URL or --video-id is required"@,
            *self is MissingPortValue ==> r@ == "--port requires a value"@,
            *self is MissingHostValue ==> r@ == "--host requires a value"@,
            *self is InvalidPort ==> r@ == "expected a numeric port between 0 and 65535"@,
            *self is MissingMediaRoot ==> r@ == "MEDIA_ROOT not set"@,
            *self is MissingWwwRoot ==> r@ == "WWW_ROOT not set"@,
    {
        match self {
            ArgsErrorKind::MissingMediaRootValue => "--media-root requires a value",
            ArgsErrorKind::MissingWwwRootValue => "--www-root requires a value",
            ArgsErrorKind::MissingVideoIdValue => "--video-id requires a value",
            ArgsErrorKind::MissingMediaKindValue => "--media-kind requires a value",
            ArgsErrorKind::MissingProgressFileValue => "--progress-file requires a value",
            ArgsErrorKind::UnknownArgument => "unknown argument",
            ArgsErrorKind::UnknownMediaKind => "unknown media kind",
            ArgsErrorKind::DuplicateChannel => "channel URL specified multiple times",
            ArgsErrorKind::DuplicateVideoId => "video id specified multiple times",
            ArgsErrorKind::ChannelAndVideoId => "cannot provide both a channel URL and --video-id",
            ArgsErrorKind::KindWithoutVideoId => "--media-kind can only be used with --video-id",
            ArgsErrorKind::NothingRequested => "a channel URL or --video-id is required",
            ArgsErrorKind::MissingPortValue => "--port requires a value",
            ArgsErrorKind::MissingHostValue => "--host requires a value",
            ArgsErrorKind::InvalidPort => "expected a numeric port between 0 and 65535",
            ArgsErrorKind::MissingMediaRoot => "MEDIA_ROOT not set",
            ArgsErrorKind::MissingWwwRoot => "WWW_ROOT not set",
        }
    }
}

/// What a downloader argument walk has accumulated.
pub struct DlParseState {
    pub media_root: Option<Seq<char>>,
    pub www_root: Option<Seq<char>>,
    pub channel_url: Option<Seq<char>>,
    pub video_id: Option<Seq<char>>,
    pub media_kind: Option<MediaCategory>,
    pub progress_file: Option<Seq<char>>,
}

pub open spec fn dl_empty_state() -> DlParseState {
    DlParseState {
        media_root: None,
        www_root: None,
        channel_url: None,
        video_id: None,
        media_kind: None,
        progress_file: None,
    }
}

/// An argument begins with a flag prefix.
pub open spec fn has_prefix(a: Seq<char>, p: Seq<char>) -> bool {
    a.len() >= p.len() && a.subrange(0, p.len() as int) == p
}

/// The media kind an argument value names, if any.
pub open spec fn dl_kind_of(v: Seq<char>) -> Option<MediaCategory> {
    let norm = lower_of(spec_trim(v));
    if norm == "video"@ {
        Some(MediaCategory::Video)
    } else if norm == "short"@ || norm == "shorts"@ {
        Some(MediaCategory::Short)
    } else {
        None
    }
}

/// After `--`, every remaining argument is a channel URL; a second one
/// is an error.
pub open spec fn spec_dl_rest(args: Seq<Seq<char>>, i: int, st: DlParseState) -> Result<
    DlParseState,
    ArgsErrorKind,
>
    decreases args.len() - i,
{
    if i < 0 || i >= args.len() {
        Ok(st)
    } else if st.channel_url is Some {
        Err(ArgsErrorKind::DuplicateChannel)
    } else {
        spec_dl_rest(args, i + 1, DlParseState { channel_url: Some(args[i]), ..st })
    }
}

/// One walk over the downloader's argument list: `--flag=value` and
/// `--flag value` forms for the five flags, `--` ending flag parsing,
/// any other `-`-argument refused, and a bare argument naming the
/// channel.
pub open spec fn spec_dl_parse(args: Seq<Seq<char>>, i: int, st: DlParseState) -> Result<
    DlParseState,
    ArgsErrorKind,
>
    decreases args.len() - i,
{
    if i < 0 || i >= args.len() {
        Ok(st)
    } else {
        let a = args[i];
        if a == "--"@ {
            spec_dl_rest(args, i + 1, st)
        } else if has_prefix(a, "--media-root="@) {
            spec_dl_parse(
                args,
                i + 1,
                DlParseState { media_root: Some(a.skip("--media-root="@.len() as int)), ..st },
            )
        } else if has_prefix(a, "--www-root="@) {
            spec_dl_parse(
                args,
                i + 1,
                DlParseState { www_root: Some(a.skip("--www-root="@.len() as int)), ..st },
            )
        } else if has_prefix(a, "--video-id="@) {
            if st.video_id is Some {
                Err(ArgsErrorKind::DuplicateVideoId)
            } else {
                spec_dl_parse(
                    args,
                    i + 1,
                    DlParseState { video_id: Some(a.skip("--video-id="@.len() as int)), ..st },
                )
            }
        } else if has_prefix(a, "--media-kind="@) {
            match dl_kind_of(a.skip("--media-kind="@.len() as int)) {
                Some(k) => spec_dl_parse(
                    args,
                    i + 1,
                    DlParseState { media_kind: Some(k), ..st },
                ),
                None => Err(ArgsErrorKind::UnknownMediaKind),
            }
        } else if has_prefix(a, "--progress-file="@) {
            spec_dl_parse(
                args,
                i + 1,
                DlParseState {
                    progress_file: Some(a.skip("--progress-file="@.len() as int)),
                    ..st
                },
            )
        } else if a == "--media-root"@ {
            if i + 1 >= args.len() {
                Err(ArgsErrorKind::MissingMediaRootValue)
            } else {
                spec_dl_parse(args, i + 2, DlParseState { media_root: Some(args[i + 1]), ..st })
            }
        } else if a == "--www-root"@ {
            if i + 1 >= args.len() {
                Err(ArgsErrorKind::MissingWwwRootValue)
            } else {
                spec_dl_parse(args, i + 2, DlParseState { www_root: Some(args[i + 1]), ..st })
            }
        } else if a == "--video-id"@ {
            if i + 1 >= args.len() {
                Err(ArgsErrorKind::MissingVideoIdValue)
            } else if st.video_id is Some {
                Err(ArgsErrorKind::DuplicateVideoId)
            } else {
                spec_dl_parse(args, i + 2, DlParseState { video_id: Some(args[i + 1]), ..st })
            }
        } else if a == "--media-kind"@ {
            if i + 1 >= args.len() {
                Err(ArgsErrorKind::MissingMediaKindValue)
            } else {
                match dl_kind_of(args[i + 1]) {
                    Some(k) => spec_dl_parse(
                        args,
                        i + 2,
                        DlParseState { media_kind: Some(k), ..st },
                    ),
                    None => Err(ArgsErrorKind::UnknownMediaKind),
                }
            }
        } else if a == "--progress-file"@ {
            if i + 1 >= args.len() {
                Err(ArgsErrorKind::MissingProgressFileValue)
            } else {
                spec_dl_parse(
                    args,
                    i + 2,
                    DlParseState { progress_file: Some(args[i + 1]), ..st },
                )
            }
        } else if a.len() > 0 && a[0] == '-' {
            Err(ArgsErrorKind::UnknownArgument)
        } else {
            if st.channel_url is Some {
                Err(ArgsErrorKind::DuplicateChannel)
            } else {
                spec_dl_parse(args, i + 1, DlParseState { channel_url: Some(a), ..st })
            }
        }
    }
}

/// The rules a finished walk must satisfy: exactly one of a channel URL
/// and a video id, and a media kind only beside a video id.
pub open spec fn spec_dl_validate(st: DlParseState) -> Option<ArgsErrorKind> {
    if st.channel_url is Some && st.video_id is Some {
        Some(ArgsErrorKind::ChannelAndVideoId)
    } else if st.channel_url is Some && st.media_kind is Some {
        Some(ArgsErrorKind::KindWithoutVideoId)
    } else if st.channel_url is None && st.video_id is None {
        Some(ArgsErrorKind::NothingRequested)
    } else {
        None
    }
}

/// The downloader's call: what to fetch and where the trees live.
#[derive(Debug)]
pub struct DownloaderArgs {
    pub channel_url: Option<String>,
    pub video_id: Option<String>,
    pub media_kind: Option<MediaCategory>,
    pub progress_file: Option<String>,
    pub media_root: String,
    pub www_root: String,
}

/// View of the five accumulating fields of an argument walk.
pub open spec fn dl_state_view(
    media_root: Option<Seq<char>>,
    www_root: Option<Seq<char>>,
    channel_url: Option<Seq<char>>,
    video_id: Option<Seq<char>>,
    media_kind: Option<MediaCategory>,
    progress_file: Option<Seq<char>>,
) -> DlParseState {
    DlParseState { media_root, www_root, channel_url, video_id, media_kind, progress_file }
}

/// Parses the downloader's argument list, then resolves the media and
/// www roots through the environment layers.
pub fn parse_downloader_args(
    args: &Vec<String>,
    env_file_content: Option<&str>,
    env_vars: &Vec<(String, String)>,
) -> (r: Result<DownloaderArgs, ArgsErrorKind>)
    ensures
        ({
            let f = match env_file_content {
                Some(c) => spec_parse_env(c@),
                None => Seq::empty(),
            };
            let e = env_vars.deep_view();
            match spec_dl_parse(args.deep_view(), 0, dl_empty_state()) {
                Err(err) => r == Err::<DownloaderArgs, ArgsErrorKind>(err),
                Ok(st) => match spec_dl_validate(st) {
                    Some(err) => r == Err::<DownloaderArgs, ArgsErrorKind>(err),
                    None => {
                        let media = root_of("MEDIA_ROOT"@, f, e, st.media_root);
                        let www = root_of("WWW_ROOT"@, f, e, st.www_root);
                        match (media, www) {
                            (Some(m), Some(w)) => {
                                &&& r matches Ok(out)
                                &&& out.channel_url.deep_view() == st.channel_url
                                &&& out.video_id.deep_view() == st.video_id
                                &&& out.media_kind == st.media_kind
                                &&& out.progress_file.deep_view() == st.progress_file
                                &&& out.media_root@ == m
                                &&& out.www_root@ == w
                            },
                            (None, _) => r == Err::<DownloaderArgs, ArgsErrorKind>(
                                ArgsErrorKind::MissingMediaRoot,
                            ),
                            (Some(_), None) => r == Err::<DownloaderArgs, ArgsErrorKind>(
                                ArgsErrorKind::MissingWwwRoot,
                            ),
                        }
                    },
                },
            }
        }),
{
    let ghost all = args.deep_view();
    let mut media_root: Option<String> = None;
    let mut www_root: Option<String> = None;
    let mut channel_url: Option<String> = None;
    let mut video_id: Option<String> = None;
    let mut media_kind: Option<MediaCategory> = None;
    let mut progress_file: Option<String> = None;
    let n: usize = args.len();
    let mut i: usize = 0;
    while i < n
        invariant
            i <= n,
            n == args@.len(),
            all == args.deep_view(),
            spec_dl_parse(all, 0, dl_empty_state()) == spec_dl_parse(
                all,
                i as int,
                dl_state_view(
                    media_root.deep_view(),
                    www_root.deep_view(),
                    channel_url.deep_view(),
                    video_id.deep_view(),
                    media_kind,
                    progress_file.deep_view(),
                ),
            ),
        decreases n - i,
    {
        let a = &args[i];
        proof {
            assert(all[i as int] == a@);
        }
        if str_eq(a.as_str(), "--") {
            // Everything after `--` names the channel.
            let mut j: usize = i + 1;
            while j < n
                invariant
                    i + 1 <= j <= n,
                    n == args@.len(),
                    all == args.deep_view(),
                    spec_dl_parse(all, 0, dl_empty_state()) == spec_dl_rest(
                        all,
                        j as int,
                        dl_state_view(
                            media_root.deep_view(),
                            www_root.deep_view(),
                            channel_url.deep_view(),
                            video_id.deep_view(),
                            media_kind,
                            progress_file.deep_view(),
                        ),
                    ),
                decreases n - j,
            {
                proof {
                    assert(all[j as int] == args@[j as int]@);
                }
                if channel_url.is_some() {
                    return Err(ArgsErrorKind::DuplicateChannel);
                }
                channel_url = Some(args[j].clone());
                j = j + 1;
            }
            proof {
                let st = dl_state_view(
                    media_root.deep_view(),
                    www_root.deep_view(),
                    channel_url.deep_view(),
                    video_id.deep_view(),
                    media_kind,
                    progress_file.deep_view(),
                );
                assert(spec_dl_rest(all, n as int, st) == Ok::<DlParseState, ArgsErrorKind>(st));
                assert(spec_dl_parse(all, n as int, st) == Ok::<DlParseState, ArgsErrorKind>(st));
            }
            i = n;
        } else if str_starts_with(a.as_str(), "--media-root=") {
            let plen: usize = "--media-root=".unicode_len();
            let alen: usize = a.as_str().unicode_len();
            media_root = Some(String::from_str(a.as_str().substring_char(plen, alen)));
            i = i + 1;
        } else if str_starts_with(a.as_str(), "--www-root=") {
            let plen: usize = "--www-root=".unicode_len();
            let alen: usize = a.as_str().unicode_len();
            www_root = Some(String::from_str(a.as_str().substring_char(plen, alen)));
            i = i + 1;
        } else if str_starts_with(a.as_str(), "--video-id=") {
            if video_id.is_some() {
                return Err(ArgsErrorKind::DuplicateVideoId);
            }
            let plen: usize = "--video-id=".unicode_len();
            let alen: usize = a.as_str().unicode_len();
            video_id = Some(String::from_str(a.as_str().substring_char(plen, alen)));
            i = i + 1;
        } else if str_starts_with(a.as_str(), "--media-kind=") {
            let plen: usize = "--media-kind=".unicode_len();
            let alen: usize = a.as_str().unicode_len();
            let value = String::from_str(a.as_str().substring_char(plen, alen));
            match parse_downloader_kind(value.as_str()) {
                Some(k) => {
                    media_kind = Some(k);
                },
                None => {
                    return Err(ArgsErrorKind::UnknownMediaKind);
                },
            }
            i = i + 1;
        } else if str_starts_with(a.as_str(), "--progress-file=") {
            let plen: usize = "--progress-file=".unicode_len();
            let alen: usize = a.as_str().unicode_len();
            progress_file = Some(String::from_str(a.as_str().substring_char(plen, alen)));
            i = i + 1;
        } else if str_eq(a.as_str(), "--media-root") {
            if i + 1 >= n {
                return Err(ArgsErrorKind::MissingMediaRootValue);
            }
            proof {
                assert(all[i + 1] == args@[i + 1]@);
            }
            media_root = Some(args[i + 1].clone());
            i = i + 2;
        } else if str_eq(a.as_str(), "--www-root") {
            if i + 1 >= n {
                return Err(ArgsErrorKind::MissingWwwRootValue);
            }
            proof {
                assert(all[i + 1] == args@[i + 1]@);
            }
            www_root = Some(args[i + 1].clone());
            i = i + 2;
        } else if str_eq(a.as_str(), "--video-id") {
            if i + 1 >= n {
                return Err(ArgsErrorKind::MissingVideoIdValue);
            }
            if video_id.is_some() {
                return Err(ArgsErrorKind::DuplicateVideoId);
            }
            proof {
                assert(all[i + 1] == args@[i + 1]@);
            }
            video_id = Some(args[i + 1].clone());
            i = i + 2;
        } else if str_eq(a.as_str(), "--media-kind") {
            if i + 1 >= n {
                return Err(ArgsErrorKind::MissingMediaKindValue);
            }
            proof {
                assert(all[i + 1] == args@[i + 1]@);
            }
            match parse_downloader_kind(args[i + 1].as_str()) {
                Some(k) => {
                    media_kind = Some(k);
                },
                None => {
                    return Err(ArgsErrorKind::UnknownMediaKind);
                },
            }
            i = i + 2;
        } else if str_eq(a.as_str(), "--progress-file") {
            if i + 1 >= n {
                return Err(ArgsErrorKind::MissingProgressFileValue);
            }
            proof {
                assert(all[i + 1] == args@[i + 1]@);
            }
            progress_file = Some(args[i + 1].clone());
            i = i + 2;
        } else if a.as_str().unicode_len() > 0 && a.as_str().get_char(0) == '-' {
            return Err(ArgsErrorKind::UnknownArgument);
        } else {
            if channel_url.is_some() {
                return Err(ArgsErrorKind::DuplicateChannel);
            }
            channel_url = Some(a.clone());
            i = i + 1;
        }
    }

    proof {
        let st = dl_state_view(
            media_root.deep_view(),
            www_root.deep_view(),
            channel_url.deep_view(),
            video_id.deep_view(),
            media_kind,
            progress_file.deep_view(),
        );
        assert(spec_dl_parse(all, i as int, st) == Ok::<DlParseState, ArgsErrorKind>(st));
    }
    // The walk is done; apply the combination rules.
    if channel_url.is_some() && video_id.is_some() {
        return Err(ArgsErrorKind::ChannelAndVideoId);
    }
    if channel_url.is_some() && media_kind.is_some() {
        return Err(ArgsErrorKind::KindWithoutVideoId);
    }
    if channel_url.is_none() && video_id.is_none() {
        return Err(ArgsErrorKind::NothingRequested);
    }

    let overrides = crate::config::RuntimeOverrides {
        media_root: crate::records::clone_opt_string(&media_root),
        www_root: crate::records::clone_opt_string(&www_root),
        newtube_port: None,
        newtube_host: None,
        env_path: None,
    };
    match crate::config::resolve_runtime_paths(overrides, env_file_content, env_vars) {
        Err(crate::config::ConfigError::MissingMediaRoot) => Err(ArgsErrorKind::MissingMediaRoot),
        Err(crate::config::ConfigError::MissingWwwRoot) => Err(ArgsErrorKind::MissingWwwRoot),
        Ok(runtime) => {
            Ok(
                DownloaderArgs {
                    channel_url,
                    video_id,
                    media_kind,
                    progress_file,
                    media_root: runtime.media_root,
                    www_root: runtime.www_root,
                },
            )
        },
    }
}

/// The media kinds the downloader accepts on its command line.
fn parse_downloader_kind(value: &str) -> (r: Option<MediaCategory>)
    ensures
        r == dl_kind_of(value@),
{
    let chars = crate::text::str_to_chars(value);
    let cn = chars.len();
    let (lo, hi) = crate::text::trim_range(&chars, 0, cn);
    proof {
        assert(chars@.subrange(0, cn as int) =~= chars@);
    }
    let trimmed = crate::text::chars_to_string(&chars, lo, hi);
    let norm = crate::downloader::to_ascii_lower(trimmed.as_str());
    if str_eq(norm.as_str(), "video") {
        Some(MediaCategory::Video)
    } else if str_eq(norm.as_str(), "short") || str_eq(norm.as_str(), "shorts") {
        Some(MediaCategory::Short)
    } else {
        None
    }
}


/// What a refresh-binary argument walk has accumulated.
pub struct RoutineParseState {
    pub media_root: Option<Seq<char>>,
    pub www_root: Option<Seq<char>>,
}

/// One walk over the refresh binary's argument list: only the two root
/// flags, in both forms; anything else is refused.
pub open spec fn spec_routine_parse(args: Seq<Seq<char>>, i: int, st: RoutineParseState) -> Result<
    RoutineParseState,
    ArgsErrorKind,
>
    decreases args.len() - i,
{
    if i < 0 || i >= args.len() {
        Ok(st)
    } else {
        let a = args[i];
        if has_prefix(a, "--media-root="@) {
            spec_routine_parse(
                args,
                i + 1,
                RoutineParseState {
                    media_root: Some(a.skip("--media-root="@.len() as int)),
                    ..st
                },
            )
        } else if has_prefix(a, "--www-root="@) {
            spec_routine_parse(
                args,
                i + 1,
                RoutineParseState { www_root: Some(a.skip("--www-root="@.len() as int)), ..st },
            )
        } else if a == "--media-root"@ {
            if i + 1 >= args.len() {
                Err(ArgsErrorKind::MissingMediaRootValue)
            } else {
                spec_routine_parse(
                    args,
                    i + 2,
                    RoutineParseState { media_root: Some(args[i + 1]), ..st },
                )
            }
        } else if a == "--www-root"@ {
            if i + 1 >= args.len() {
                Err(ArgsErrorKind::MissingWwwRootValue)
            } else {
                spec_routine_parse(
                    args,
                    i + 2,
                    RoutineParseState { www_root: Some(args[i + 1]), ..st },
                )
            }
        } else {
            Err(ArgsErrorKind::UnknownArgument)
        }
    }
}

/// The refresh binary's call: where the trees live.
#[derive(Debug)]
pub struct RoutineArgs {
    pub media_root: String,
    pub www_root: String,
}

/// Parses the refresh binary's argument list, then resolves the roots
/// through the environment layers.
pub fn parse_routine_args(
    args: &Vec<String>,
    env_file_content: Option<&str>,
    env_vars: &Vec<(String, String)>,
) -> (r: Result<RoutineArgs, ArgsErrorKind>)
    ensures
        ({
            let f = match env_file_content {
                Some(c) => spec_parse_env(c@),
                None => Seq::empty(),
            };
            let e = env_vars.deep_view();
            match spec_routine_parse(
                args.deep_view(),
                0,
                RoutineParseState { media_root: None, www_root: None },
            ) {
                Err(err) => r == Err::<RoutineArgs, ArgsErrorKind>(err),
                Ok(st) => {
                    let media = root_of("MEDIA_ROOT"@, f, e, st.media_root);
                    let www = root_of("WWW_ROOT"@, f, e, st.www_root);
                    match (media, www) {
                        (Some(m), Some(w)) => r matches Ok(out) && out.media_root@ == m
                            && out.www_root@ == w,
                        (None, _) => r == Err::<RoutineArgs, ArgsErrorKind>(
                            ArgsErrorKind::MissingMediaRoot,
                        ),
                        (Some(_), None) => r == Err::<RoutineArgs, ArgsErrorKind>(
                            ArgsErrorKind::MissingWwwRoot,
                        ),
                    }
                },
            }
        }),
{
    let ghost all = args.deep_view();
    let mut media_root: Option<String> = None;
    let mut www_root: Option<String> = None;
    let n: usize = args.len();
    let mut i: usize = 0;
    while i < n
        invariant
            i <= n,
            n == args@.len(),
            all == args.deep_view(),
            spec_routine_parse(
                all,
                0,
                RoutineParseState { media_root: None, www_root: None },
            ) == spec_routine_parse(
                all,
                i as int,
                RoutineParseState {
                    media_root: media_root.deep_view(),
                    www_root: www_root.deep_view(),
                },
            ),
        decreases n - i,
    {
        let a = &args[i];
        proof {
            assert(all[i as int] == a@);
        }
        if str_starts_with(a.as_str(), "--media-root=") {
            let plen: usize = "--media-root=".unicode_len();
            let alen: usize = a.as_str().unicode_len();
            media_root = Some(String::from_str(a.as_str().substring_char(plen, alen)));
            i = i + 1;
        } else if str_starts_with(a.as_str(), "--www-root=") {
            let plen: usize = "--www-root=".unicode_len();
            let alen: usize = a.as_str().unicode_len();
            www_root = Some(String::from_str(a.as_str().substring_char(plen, alen)));
            i = i + 1;
        } else if str_eq(a.as_str(), "--media-root") {
            if i + 1 >= n {
                return Err(ArgsErrorKind::MissingMediaRootValue);
            }
            proof {
                assert(all[i + 1] == args@[i + 1]@);
            }
            media_root = Some(args[i + 1].clone());
            i = i + 2;
        } else if str_eq(a.as_str(), "--www-root") {
            if i + 1 >= n {
                return Err(ArgsErrorKind::MissingWwwRootValue);
            }
            proof {
                assert(all[i + 1] == args@[i + 1]@);
            }
            www_root = Some(args[i + 1].clone());
            i = i + 2;
        } else {
            return Err(ArgsErrorKind::UnknownArgument);
        }
    }
    let overrides = crate::config::RuntimeOverrides {
        media_root: crate::records::clone_opt_string(&media_root),
        www_root: crate::records::clone_opt_string(&www_root),
        newtube_port: None,
        newtube_host: None,
        env_path: None,
    };
    match crate::config::resolve_runtime_paths(overrides, env_file_content, env_vars) {
        Err(crate::config::ConfigError::MissingMediaRoot) => Err(ArgsErrorKind::MissingMediaRoot),
        Err(crate::config::ConfigError::MissingWwwRoot) => Err(ArgsErrorKind::MissingWwwRoot),
        Ok(runtime) => Ok(
            RoutineArgs { media_root: runtime.media_root, www_root: runtime.www_root },
        ),
    }
}


/// What a server argument walk has accumulated.
pub struct BackendParseState {
    pub media_root: Option<Seq<char>>,
    pub www_root: Option<Seq<char>>,
    pub port: Option<u16>,
    pub host: Option<Seq<char>>,
}

/// One walk over the server's argument list: the two root flags, the
/// port (which must be a number) and the listen host, each in both
/// forms; anything else is refused.
pub open spec fn spec_backend_parse(args: Seq<Seq<char>>, i: int, st: BackendParseState) -> Result<
    BackendParseState,
    ArgsErrorKind,
>
    decreases args.len() - i,
{
    if i < 0 || i >= args.len() {
        Ok(st)
    } else {
        let a = args[i];
        if has_prefix(a, "--media-root="@) {
            spec_backend_parse(
                args,
                i + 1,
                BackendParseState {
                    media_root: Some(a.skip("--media-root="@.len() as int)),
                    ..st
                },
            )
        } else if has_prefix(a, "--www-root="@) {
            spec_backend_parse(
                args,
                i + 1,
                BackendParseState { www_root: Some(a.skip("--www-root="@.len() as int)), ..st },
            )
        } else if has_prefix(a, "--port="@) {
            match crate::config::spec_parse_u16(a.skip("--port="@.len() as int)) {
                Some(p) => spec_backend_parse(
                    args,
                    i + 1,
                    BackendParseState { port: Some(p), ..st },
                ),
                None => Err(ArgsErrorKind::InvalidPort),
            }
        } else if has_prefix(a, "--host="@) {
            spec_backend_parse(
                args,
                i + 1,
                BackendParseState { host: Some(a.skip("--host="@.len() as int)), ..st },
            )
        } else if a == "--media-root"@ {
            if i + 1 >= args.len() {
                Err(ArgsErrorKind::MissingMediaRootValue)
            } else {
                spec_backend_parse(
                    args,
                    i + 2,
                    BackendParseState { media_root: Some(args[i + 1]), ..st },
                )
            }
        } else if a == "--www-root"@ {
            if i + 1 >= args.len() {
                Err(ArgsErrorKind::MissingWwwRootValue)
            } else {
                spec_backend_parse(
                    args,
                    i + 2,
                    BackendParseState { www_root: Some(args[i + 1]), ..st },
                )
            }
        } else if a == "--port"@ {
            if i + 1 >= args.len() {
                Err(ArgsErrorKind::MissingPortValue)
            } else {
                match crate::config::spec_parse_u16(args[i + 1]) {
                    Some(p) => spec_backend_parse(
                        args,
                        i + 2,
                        BackendParseState { port: Some(p), ..st },
                    ),
                    None => Err(ArgsErrorKind::InvalidPort),
                }
            }
        } else if a == "--host"@ {
            if i + 1 >= args.len() {
                Err(ArgsErrorKind::MissingHostValue)
            } else {
                spec_backend_parse(args, i + 2, BackendParseState { host: Some(args[i + 1]), ..st })
            }
        } else {
            Err(ArgsErrorKind::UnknownArgument)
        }
    }
}

/// The server's call: trees, port, and the host to listen on, the host
/// still text — the process turns it into an address and refuses the
/// call when it is not one.
#[derive(Debug)]
pub struct BackendArgs {
    pub media_root: String,
    pub www_root: String,
    pub newtube_port: u16,
    pub listen_host: String,
}

/// Parses the server's argument list and resolves every setting through
/// the environment layers; an explicit port or host wins over them.
pub fn parse_backend_args(
    args: &Vec<String>,
    env_file_content: Option<&str>,
    env_vars: &Vec<(String, String)>,
) -> (r: Result<BackendArgs, ArgsErrorKind>)
    ensures
        ({
            let f = match env_file_content {
                Some(c) => spec_parse_env(c@),
                None => Seq::empty(),
            };
            let e = env_vars.deep_view();
            match spec_backend_parse(
                args.deep_view(),
                0,
                BackendParseState { media_root: None, www_root: None, port: None, host: None },
            ) {
                Err(err) => r == Err::<BackendArgs, ArgsErrorKind>(err),
                Ok(st) => {
                    let media = root_of("MEDIA_ROOT"@, f, e, st.media_root);
                    let www = root_of("WWW_ROOT"@, f, e, st.www_root);
                    match (media, www) {
                        (Some(m), Some(w)) => {
                            &&& r matches Ok(out)
                            &&& out.media_root@ == m
                            &&& out.www_root@ == w
                            &&& out.newtube_port == (match st.port {
                                Some(p) => p,
                                None => crate::config::port_of(f, e, None),
                            })
                            &&& out.listen_host@ == (match st.host {
                                Some(h) => h,
                                None => crate::config::host_of(f, e, None),
                            })
                        },
                        (None, _) => r == Err::<BackendArgs, ArgsErrorKind>(
                            ArgsErrorKind::MissingMediaRoot,
                        ),
                        (Some(_), None) => r == Err::<BackendArgs, ArgsErrorKind>(
                            ArgsErrorKind::MissingWwwRoot,
                        ),
                    }
                },
            }
        }),
{
    let ghost all = args.deep_view();
    let mut media_root: Option<String> = None;
    let mut www_root: Option<String> = None;
    let mut port: Option<u16> = None;
    let mut host: Option<String> = None;
    let n: usize = args.len();
    let mut i: usize = 0;
    while i < n
        invariant
            i <= n,
            n == args@.len(),
            all == args.deep_view(),
            spec_backend_parse(
                all,
                0,
                BackendParseState { media_root: None, www_root: None, port: None, host: None },
            ) == spec_backend_parse(
                all,
                i as int,
                BackendParseState {
                    media_root: media_root.deep_view(),
                    www_root: www_root.deep_view(),
                    port,
                    host: host.deep_view(),
                },
            ),
        decreases n - i,
    {
        let a = &args[i];
        proof {
            assert(all[i as int] == a@);
        }
        if str_starts_with(a.as_str(), "--media-root=") {
            let plen: usize = "--media-root=".unicode_len();
            let alen: usize = a.as_str().unicode_len();
            media_root = Some(String::from_str(a.as_str().substring_char(plen, alen)));
            i = i + 1;
        } else if str_starts_with(a.as_str(), "--www-root=") {
            let plen: usize = "--www-root=".unicode_len();
            let alen: usize = a.as_str().unicode_len();
            www_root = Some(String::from_str(a.as_str().substring_char(plen, alen)));
            i = i + 1;
        } else if str_starts_with(a.as_str(), "--port=") {
            let plen: usize = "--port=".unicode_len();
            let alen: usize = a.as_str().unicode_len();
            let value = String::from_str(a.as_str().substring_char(plen, alen));
            match crate::config::parse_port_value(value.as_str()) {
                Some(p) => {
                    port = Some(p);
                },
                None => {
                    return Err(ArgsErrorKind::InvalidPort);
                },
            }
            i = i + 1;
        } else if str_starts_with(a.as_str(), "--host=") {
            let plen: usize = "--host=".unicode_len();
            let alen: usize = a.as_str().unicode_len();
            host = Some(String::from_str(a.as_str().substring_char(plen, alen)));
            i = i + 1;
        } else if str_eq(a.as_str(), "--media-root") {
            if i + 1 >= n {
                return Err(ArgsErrorKind::MissingMediaRootValue);
            }
            proof {
                assert(all[i + 1] == args@[i + 1]@);
            }
            media_root = Some(args[i + 1].clone());
            i = i + 2;
        } else if str_eq(a.as_str(), "--www-root") {
            if i + 1 >= n {
                return Err(ArgsErrorKind::MissingWwwRootValue);
            }
            proof {
                assert(all[i + 1] == args@[i + 1]@);
            }
            www_root = Some(args[i + 1].clone());
            i = i + 2;
        } else if str_eq(a.as_str(), "--port") {
            if i + 1 >= n {
                return Err(ArgsErrorKind::MissingPortValue);
            }
            proof {
                assert(all[i + 1] == args@[i + 1]@);
            }
            match crate::config::parse_port_value(args[i + 1].as_str()) {
                Some(p) => {
                    port = Some(p);
                },
                None => {
                    return Err(ArgsErrorKind::InvalidPort);
                },
            }
            i = i + 2;
        } else if str_eq(a.as_str(), "--host") {
            if i + 1 >= n {
                return Err(ArgsErrorKind::MissingHostValue);
            }
            proof {
                assert(all[i + 1] == args@[i + 1]@);
            }
            host = Some(args[i + 1].clone());
            i = i + 2;
        } else {
            return Err(ArgsErrorKind::UnknownArgument);
        }
    }
    let overrides = crate::config::RuntimeOverrides {
        media_root: crate::records::clone_opt_string(&media_root),
        www_root: crate::records::clone_opt_string(&www_root),
        newtube_port: None,
        newtube_host: None,
        env_path: None,
    };
    match crate::config::resolve_runtime_paths(overrides, env_file_content, env_vars) {
        Err(crate::config::ConfigError::MissingMediaRoot) => Err(ArgsErrorKind::MissingMediaRoot),
        Err(crate::config::ConfigError::MissingWwwRoot) => Err(ArgsErrorKind::MissingWwwRoot),
        Ok(runtime) => {
            let newtube_port = match port {
                Some(p) => p,
                None => runtime.newtube_port,
            };
            let listen_host = match host {
                Some(h) => h,
                None => runtime.newtube_host,
            };
            Ok(
                BackendArgs {
                    media_root: runtime.media_root,
                    www_root: runtime.www_root,
                    newtube_port,
                    listen_host,
                },
            )
        },
    }
}

} // verus!
