//! Runtime-path resolution, env-file parsing, and the downloader's pure
//! helpers.

use newtube_core::args::{parse_backend_args, parse_downloader_args, parse_routine_args, ArgsErrorKind};
use newtube_core::config::{
    build_runtime_paths, build_runtime_paths_with_overrides, env_value, load_runtime_paths,
    parse_env_file, upsert_env_lines, ConfigError, RuntimeOverrides, DEFAULT_NEWTUBE_HOST,
    DEFAULT_NEWTUBE_PORT,
};
use newtube_core::downloader::{
    archive_contains, archive_line, build_channel_list_url, channel_url_of_info,
    collect_author_names, collect_channel_ids, collect_channel_names, collect_channel_urls,
    collect_creator_names, collect_uploader_names, first_channel_url, format_duration,
    format_quality_label, load_archive_entries, mime_from_extension, normalize_comments,
    parse_id_lines, parse_time_text, sanitize_format_id, timestamp_to_iso, upload_date_to_iso,
    build_video_record, collect_sources, collect_subtitles, collect_thumbnails,
    subtitle_name_map, CreatorInfo, FormatMeta, MinimalInfo, OneOrMany, RawComment, SubtitleMeta,
    VideoInfo,
};
use newtube_core::records::MediaCategory;
use newtube_core::routine::{canonicalize_channel_url, first_url};
use newtube_core::security::ensure_not_root_for;
use newtube_core::settings::{InstanceSettings, MissingMediaBehavior};

fn no_vars() -> Vec<(String, String)> {
    Vec::new()
}

fn pairs(entries: &[(&str, &str)]) -> Vec<(String, String)> {
    entries.iter().map(|(k, v)| (k.to_string(), v.to_string())).collect()
}

fn bare_info() -> MinimalInfo {
    MinimalInfo {
        channel_url: None,
        uploader_url: None,
        creators: None,
        channel: None,
        uploader: None,
    }
}

#[test]
fn build_runtime_paths_override_precedence() {
    let vars = pairs(&[
        ("MEDIA_ROOT", "/file-media"),
        ("WWW_ROOT", "/file-www"),
        ("NEWTUBE_HOST", "file-host"),
        ("NEWTUBE_PORT", "7000"),
    ]);
    let env = pairs(&[("WWW_ROOT", "/env-www"), ("NEWTUBE_PORT", "8000")]);
    let overrides = RuntimeOverrides {
        media_root: Some("/override-media".to_string()),
        www_root: None,
        newtube_port: Some(9000),
        newtube_host: Some("override-host".to_string()),
        env_path: None,
    };
    let runtime = build_runtime_paths_with_overrides(&vars, &env, overrides).unwrap();
    assert_eq!(runtime.media_root, "/override-media");
    assert_eq!(runtime.www_root, "/env-www");
    assert_eq!(runtime.newtube_port, 9000);
    assert_eq!(runtime.newtube_host, "override-host");
}

#[test]
fn load_runtime_paths_reads_port() {
    let content = "MEDIA_ROOT=\"/yt\"\nWWW_ROOT=\"/www\"\nNEWTUBE_PORT=\"4242\"\n";
    let runtime = load_runtime_paths(Some(content), &no_vars()).unwrap();
    assert_eq!(runtime.newtube_port, 4242);
}

#[test]
fn load_runtime_paths_defaults_missing_port() {
    let content = "MEDIA_ROOT=\"/m\"\nWWW_ROOT=\"/w\"\n";
    let runtime = load_runtime_paths(Some(content), &no_vars()).unwrap();
    assert_eq!(runtime.newtube_port, DEFAULT_NEWTUBE_PORT);
    assert_eq!(runtime.media_root, "/m");
    assert_eq!(runtime.www_root, "/w");
    assert_eq!(runtime.newtube_host, DEFAULT_NEWTUBE_HOST);
}

#[test]
fn load_runtime_paths_reads_host() {
    let content = "MEDIA_ROOT=\"/m\"\nWWW_ROOT=\"/w\"\nNEWTUBE_HOST=\"0.0.0.0\"\n";
    let runtime = load_runtime_paths(Some(content), &no_vars()).unwrap();
    assert_eq!(runtime.newtube_host, "0.0.0.0");
}

#[test]
fn read_env_file_parses_values() {
    let vars = parse_env_file("MEDIA_ROOT=\"/x\"\nWWW_ROOT=\"/y\"\nNEWTUBE_PORT=\"9090\"\n");
    let runtime = build_runtime_paths(&vars, &no_vars()).unwrap();
    assert_eq!(runtime.media_root, "/x");
    assert_eq!(runtime.www_root, "/y");
    assert_eq!(runtime.newtube_port, 9090);
}

#[test]
fn build_runtime_paths_prefers_env_over_file() {
    let vars = parse_env_file("MEDIA_ROOT=\"/file\"\nWWW_ROOT=\"/www\"\n");
    let env = pairs(&[("MEDIA_ROOT", "/env")]);
    let runtime = build_runtime_paths(&vars, &env).unwrap();
    assert_eq!(runtime.media_root, "/env");
}

#[test]
fn read_env_file_handles_export_and_quotes() {
    let content = "\n            export MEDIA_ROOT=\"/media\"\n            WWW_ROOT='/www'\n            NEWTUBE_HOST =  \"0.0.0.0\"\n            NEWTUBE_PORT=9090\n            # comment\n            INVALID_LINE\n            ";
    let vars = parse_env_file(content);
    assert_eq!(env_value(&vars, "MEDIA_ROOT").as_deref(), Some("/media"));
    assert_eq!(env_value(&vars, "WWW_ROOT").as_deref(), Some("/www"));
    assert_eq!(env_value(&vars, "NEWTUBE_HOST").as_deref(), Some("0.0.0.0"));
    assert_eq!(env_value(&vars, "NEWTUBE_PORT").as_deref(), Some("9090"));
    assert!(env_value(&vars, "INVALID_LINE").is_none());
}

#[test]
fn build_runtime_paths_ignores_blank_host() {
    let vars = parse_env_file("MEDIA_ROOT=\"/m\"\nWWW_ROOT=\"/w\"\n");
    let overrides = RuntimeOverrides {
        newtube_host: Some("   ".to_string()),
        media_root: None,
        www_root: None,
        newtube_port: None,
        env_path: None,
    };
    let runtime = build_runtime_paths_with_overrides(&vars, &no_vars(), overrides).unwrap();
    assert_eq!(runtime.newtube_host, DEFAULT_NEWTUBE_HOST);
}

#[test]
fn build_runtime_paths_invalid_port_defaults() {
    let vars = parse_env_file("MEDIA_ROOT=\"/m\"\nWWW_ROOT=\"/w\"\nNEWTUBE_PORT=\"nope\"\n");
    let runtime = build_runtime_paths(&vars, &no_vars()).unwrap();
    assert_eq!(runtime.newtube_port, DEFAULT_NEWTUBE_PORT);
}

#[test]
fn missing_roots_are_reported_in_order() {
    let err = build_runtime_paths(&no_vars(), &no_vars()).unwrap_err();
    assert_eq!(err, ConfigError::MissingMediaRoot);
    assert_eq!(err.message(), "MEDIA_ROOT not set");
    let vars = pairs(&[("MEDIA_ROOT", "/m")]);
    let err = build_runtime_paths(&vars, &no_vars()).unwrap_err();
    assert_eq!(err, ConfigError::MissingWwwRoot);
    assert_eq!(err.message(), "WWW_ROOT not set");
}

#[test]
fn format_helpers_cover_edge_cases() {
    assert_eq!(
        format_quality_label(Some(2160), Some("HDR")),
        Some("2160p HDR".to_string())
    );
    assert_eq!(format_quality_label(None, None), None);
    assert_eq!(mime_from_extension("webm"), "video/webm");
    assert_eq!(mime_from_extension("foo"), "video/foo");
    assert_eq!(
        upload_date_to_iso("20240102"),
        Some("2024-01-02T00:00:00Z".to_string())
    );
    assert!(upload_date_to_iso("2024").is_none());
    assert_eq!(
        timestamp_to_iso(0).as_deref(),
        Some("1970-01-01T00:00:00+00:00")
    );
    assert_eq!(format_duration(65), "1:05");
    assert_eq!(format_duration(3725), "1:02:05");
}

#[test]
fn impossible_dates_are_rejected() {
    assert!(upload_date_to_iso("20240231").is_none());
    assert_eq!(
        upload_date_to_iso("20240229"),
        Some("2024-02-29T00:00:00Z".to_string())
    );
    assert!(upload_date_to_iso("20230229").is_none());
    assert!(upload_date_to_iso("20241301").is_none());
}

#[test]
fn time_text_accepts_absolute_forms_only() {
    assert_eq!(
        parse_time_text(" 2024-01-01 ").as_deref(),
        Some("2024-01-01T00:00:00Z")
    );
    assert_eq!(
        parse_time_text("2024-01-02T03:04:05+00:00").as_deref(),
        Some("2024-01-02T03:04:05+00:00")
    );
    assert!(parse_time_text("2 weeks ago").is_none());
    assert!(parse_time_text("").is_none());
}

#[test]
fn sanitize_format_id_replaces_delimiters() {
    assert_eq!(sanitize_format_id("http/1080p:60"), "http_1080p_60");
    assert_eq!(sanitize_format_id("abc def"), "abc_def");
}

#[test]
fn canonicalize_channel_url_strips_trailing_slash() {
    assert_eq!(
        canonicalize_channel_url("HTTPS://Example.com/Channel/"),
        "https://example.com/channel"
    );
}

#[test]
fn canonicalize_channel_url_drops_query_and_fragment() {
    assert_eq!(
        canonicalize_channel_url("  https://Example.com/C?tab=videos#top "),
        "https://example.com/c"
    );
}

#[test]
fn channel_url_extraction_prefers_channel_fields() {
    let mut info = bare_info();
    info.channel_url = Some(OneOrMany::One("https://example.com".to_string()));
    info.uploader_url = Some(OneOrMany::One("https://other".to_string()));
    assert_eq!(first_url(&info).as_deref(), Some("https://example.com"));

    let mut info = bare_info();
    info.channel_url = Some(OneOrMany::Many(vec!["  ".to_string()]));
    info.uploader = Some(OneOrMany::One(CreatorInfo::Object {
        name: Some("Someone".to_string()),
        title: None,
        url: None,
        id: None,
        channel_url: Some("https://youtube.com/@someone".to_string()),
        uploader_url: None,
        channel_id: None,
    }));
    assert_eq!(
        first_channel_url(&info).as_deref(),
        Some("https://youtube.com/@someone")
    );
    assert_eq!(
        channel_url_of_info(&info).as_deref(),
        Some("https://youtube.com/@someone")
    );
    assert!(first_url(&bare_info()).is_none());
}

#[test]
fn author_names_merge_without_duplicates() {
    let creators = vec!["A".to_string(), "B".to_string()];
    let channels = vec!["B".to_string(), "C".to_string()];
    let uploaders = vec!["A".to_string()];
    assert_eq!(
        collect_author_names(&creators, &channels, &uploaders),
        vec!["A", "B", "C"]
    );
}

#[test]
fn playlist_listing_yields_trimmed_ids() {
    assert_eq!(
        parse_id_lines("alpha\n\n  beta  \n\ngamma"),
        vec!["alpha", "beta", "gamma"]
    );
    assert!(parse_id_lines("").is_empty());
}

#[test]
fn fetch_comments_dedupes_and_sets_flags() {
    let raw = vec![
        RawComment {
            id: "c1".to_string(),
            author: None,
            text: Some("first".to_string()),
            like_count: Some(1),
            timestamp: Some(1700000000),
            parent: None,
            author_is_uploader: false,
            author_is_channel_owner: true,
            reply_count: None,
            time_text: None,
        },
        RawComment {
            id: "c1".to_string(),
            author: None,
            text: Some("duplicate".to_string()),
            like_count: None,
            timestamp: Some(1700000100),
            parent: None,
            author_is_uploader: false,
            author_is_channel_owner: false,
            reply_count: None,
            time_text: None,
        },
        RawComment {
            id: "c2".to_string(),
            author: None,
            text: Some("second".to_string()),
            like_count: None,
            timestamp: None,
            parent: None,
            author_is_uploader: true,
            author_is_channel_owner: false,
            reply_count: None,
            time_text: Some("2024-01-01".to_string()),
        },
    ];
    let comments = normalize_comments("alpha", &raw);
    assert_eq!(comments.len(), 2);
    assert!(comments[0].time_posted.as_ref().unwrap().starts_with("2023"));
    assert!(comments.iter().any(|c| c.status_likedbycreator));
    assert_eq!(comments[1].time_posted.as_deref(), Some("2024-01-01T00:00:00Z"));
    assert_eq!(comments[1].videoid, "alpha");
}

#[test]
fn video_urls_follow_the_kind() {
    assert_eq!(
        newtube_core::downloader::video_url_for_kind("abc", MediaCategory::Video),
        "https://www.youtube.com/watch?v=abc"
    );
    assert_eq!(
        newtube_core::downloader::video_url_for_kind("abc", MediaCategory::Short),
        "https://www.youtube.com/shorts/abc"
    );
}

#[test]
fn ensure_not_root_allows_unprivileged_uid() {
    assert!(ensure_not_root_for(1000, "tester").is_ok());
}

#[test]
fn ensure_not_root_rejects_root_uid() {
    let err = ensure_not_root_for(0, "tester").unwrap_err();
    assert!(err.contains("must not be run as root"));
}

#[test]
fn archive_lines_round_trip() {
    let mut content = String::new();
    content.push_str(&archive_line("abc123"));
    content.push_str(&archive_line("abc123"));
    content.push_str(&archive_line("def456"));
    let entries = load_archive_entries(&content);
    assert!(archive_contains(&entries, "abc123"));
    assert!(archive_contains(&entries, "def456"));
    assert!(!archive_contains(&entries, "ghi789"));
    let distinct: std::collections::HashSet<&String> = entries.iter().collect();
    assert_eq!(distinct.len(), 2);
}

#[test]
fn channel_list_urls_keep_query_and_fragment() {
    let videos = build_channel_list_url("https://example.com/@c/", MediaCategory::Video);
    assert_eq!(videos, "https://example.com/@c/videos");
    let shorts = build_channel_list_url("https://example.com/@c/shorts", MediaCategory::Short);
    assert_eq!(shorts, "https://example.com/@c/shorts");
    let with_extras = build_channel_list_url("https://example.com/@c?tab=x#top", MediaCategory::Video);
    assert_eq!(with_extras, "https://example.com/@c/videos?tab=x#top");
}

#[test]
fn directory_layout_is_fixed() {
    let files = newtube_core::paths::FilePaths::new("/yt");
    assert_eq!(files.videos, "/yt/videos");
    assert_eq!(files.media_dir(MediaCategory::Short), "/yt/shorts");
    let paths = newtube_core::paths::Paths::with_roots("/yt", "/www");
    assert_eq!(paths.archive, "/yt/download-archive.txt");
    assert_eq!(paths.metadata_db, "/yt/metadata.db");
    assert_eq!(paths.www_root, "/www");
    let nested = newtube_core::paths::Paths::from_base("/data");
    assert_eq!(nested.www_root, "/data/www");
    assert_eq!(nested.comments, "/data/comments");
}

#[test]
fn missing_media_behavior_spellings() {
    assert_eq!(MissingMediaBehavior::parse("404"), Some(MissingMediaBehavior::NotFound));
    assert_eq!(MissingMediaBehavior::parse(" Prompt "), Some(MissingMediaBehavior::Prompt));
    assert_eq!(MissingMediaBehavior::parse("download"), Some(MissingMediaBehavior::Prompt));
    assert_eq!(MissingMediaBehavior::parse("whatever"), None);
    let env = pairs(&[("NEWTUBE_MISSING_MEDIA_BEHAVIOR", "ask")]);
    let settings = InstanceSettings::from_env(&no_vars(), &env);
    assert_eq!(settings.missing_media_behavior, MissingMediaBehavior::Prompt);
    let settings = InstanceSettings::from_env(&no_vars(), &no_vars());
    assert_eq!(settings.missing_media_behavior, MissingMediaBehavior::NotFound);
}

fn bare_video_info() -> VideoInfo {
    VideoInfo {
        title: None,
        fulltitle: None,
        description: None,
        like_count: None,
        dislike_count: None,
        view_count: None,
        upload_date: None,
        release_timestamp: None,
        uploader: None,
        uploader_url: None,
        channel: None,
        channel_id: None,
        channel_url: None,
        creators: None,
        channel_follower_count: None,
        duration: None,
        duration_string: None,
        tags: None,
        comment_count: None,
    }
}

fn creator(name: &str, url: Option<&str>, id: Option<&str>) -> CreatorInfo {
    CreatorInfo::Object {
        name: Some(name.to_string()),
        title: None,
        url: url.map(|u| u.to_string()),
        id: id.map(|i| i.to_string()),
        channel_url: None,
        uploader_url: None,
        channel_id: None,
    }
}

#[test]
fn creator_collections_deduplicate_across_fields() {
    let mut info = bare_video_info();
    info.channel = Some(OneOrMany::One(CreatorInfo::Name("Channel".to_string())));
    info.uploader = Some(OneOrMany::Many(vec![
        creator("Channel", Some("https://youtube.com/@c"), Some("chan123")),
        creator("Second", None, Some("chan123")),
    ]));
    info.channel_id = Some(OneOrMany::One("chan123".to_string()));
    info.channel_url = Some(OneOrMany::One("https://youtube.com/@c".to_string()));

    assert_eq!(collect_channel_names(&info), vec!["Channel"]);
    assert_eq!(collect_uploader_names(&info), vec!["Channel", "Second"]);
    assert!(collect_creator_names(&info).is_empty());
    assert_eq!(collect_channel_ids(&info), vec!["chan123"]);
    assert_eq!(collect_channel_urls(&info), vec!["https://youtube.com/@c"]);

    let authors = collect_author_names(
        &collect_creator_names(&info),
        &collect_channel_names(&info),
        &collect_uploader_names(&info),
    );
    assert_eq!(authors, vec!["Channel", "Second"]);
}

#[test]
fn build_video_record_populates_fields() {
    let mut info = bare_video_info();
    info.fulltitle = Some("Fancy Title".to_string());
    info.duration = Some(125);
    info.channel = Some(OneOrMany::One(CreatorInfo::Name("Channel".to_string())));
    info.channel_id = Some(OneOrMany::One("chan123".to_string()));
    info.channel_url = Some(OneOrMany::One("https://example.com/channel".to_string()));
    info.comment_count = Some(5);
    info.like_count = Some(1);
    info.upload_date = Some("20240101".to_string());

    let thumbnails = vec![
        "/api/videos/abc/thumbnails/first.jpg".to_string(),
        "/api/videos/abc/thumbnails/second.jpg".to_string(),
    ];
    let sources = vec![newtube_core::records::VideoSource {
        format_id: "1080p".to_string(),
        quality_label: Some("1080p".to_string()),
        width: Some(1920),
        height: Some(1080),
        fps_bits: Some(30.0f64.to_bits()),
        mime_type: Some("video/mp4".to_string()),
        ext: Some("mp4".to_string()),
        file_size: Some(1234),
        url: "/api/videos/abc/streams/1080p".to_string(),
        path: None,
    }];

    let record = build_video_record("abc", &info, thumbnails, sources);
    assert_eq!(record.videoid, "abc");
    assert_eq!(record.title, "Fancy Title");
    assert_eq!(record.duration_text.as_deref(), Some("2:05"));
    assert_eq!(record.upload_date.as_deref(), Some("2024-01-01T00:00:00Z"));
    assert_eq!(record.author.as_deref(), Some("Channel"));
    assert_eq!(
        record.thumbnail_url.as_deref(),
        Some("/api/videos/abc/thumbnails/first.jpg")
    );
    assert_eq!(record.channel_url.as_deref(), Some("https://example.com/channel"));
    assert_eq!(record.sources.len(), 1);
    assert_eq!(record.sources[0].url, "/api/videos/abc/streams/1080p");
    assert_eq!(
        record.extras,
        "{\"channelFieldNames\":[\"Channel\"],\"channelId\":\"chan123\",\"channelIds\":[\"chan123\"],\"channelNames\":[\"Channel\"],\"channelUrls\":[\"https://example.com/channel\"],\"commentCount\":5,\"creatorNames\":[],\"uploaderNames\":[]}"
    );
}

fn argv(values: &[&str]) -> Vec<String> {
    values.iter().map(|v| v.to_string()).collect()
}

#[test]
fn downloader_args_use_defaults() {
    let content = "MEDIA_ROOT=\"/yt\"\nWWW_ROOT=\"/www/newtube.com\"\n";
    let args = parse_downloader_args(
        &argv(&["https://www.youtube.com/@Channel"]),
        Some(content),
        &no_vars(),
    )
    .unwrap();
    assert_eq!(args.channel_url.as_deref(), Some("https://www.youtube.com/@Channel"));
    assert!(args.video_id.is_none());
    assert!(args.media_kind.is_none());
    assert!(args.progress_file.is_none());
    assert_eq!(args.media_root, "/yt");
    assert_eq!(args.www_root, "/www/newtube.com");
}

#[test]
fn downloader_args_override_roots() {
    let content = "MEDIA_ROOT=\"/yt\"\nWWW_ROOT=\"/www/newtube.com\"\n";
    let args = parse_downloader_args(
        &argv(&[
            "--media-root",
            "/data/media",
            "--www-root",
            "/srv/www",
            "https://www.youtube.com/@Channel",
        ]),
        Some(content),
        &no_vars(),
    )
    .unwrap();
    assert_eq!(args.media_root, "/data/media");
    assert_eq!(args.www_root, "/srv/www");
}

#[test]
fn downloader_args_accept_video_id() {
    let content = "MEDIA_ROOT=\"/yt\"\nWWW_ROOT=\"/www/newtube.com\"\n";
    let args = parse_downloader_args(
        &argv(&["--video-id", "abc123", "--media-kind", "short"]),
        Some(content),
        &no_vars(),
    )
    .unwrap();
    assert_eq!(args.video_id.as_deref(), Some("abc123"));
    assert!(matches!(args.media_kind, Some(MediaCategory::Short)));
    assert!(args.channel_url.is_none());
}

#[test]
fn downloader_args_reject_conflicts() {
    let content = "MEDIA_ROOT=\"/yt\"\nWWW_ROOT=\"/www\"\n";
    let err = parse_downloader_args(
        &argv(&["--video-id", "abc", "https://example.com/@c"]),
        Some(content),
        &no_vars(),
    )
    .unwrap_err();
    assert_eq!(err, ArgsErrorKind::ChannelAndVideoId);
    let err = parse_downloader_args(&argv(&[]), Some(content), &no_vars()).unwrap_err();
    assert_eq!(err, ArgsErrorKind::NothingRequested);
    let err = parse_downloader_args(
        &argv(&["--media-kind", "hologram", "--video-id", "abc"]),
        Some(content),
        &no_vars(),
    )
    .unwrap_err();
    assert_eq!(err, ArgsErrorKind::UnknownMediaKind);
    let err = parse_downloader_args(&argv(&["--bogus"]), Some(content), &no_vars()).unwrap_err();
    assert_eq!(err, ArgsErrorKind::UnknownArgument);
    assert_eq!(err.message(), "unknown argument");
}

#[test]
fn routine_args_default_paths() {
    let content = "MEDIA_ROOT=\"/yt\"\nWWW_ROOT=\"/www/newtube.com\"\n";
    let args = parse_routine_args(&argv(&[]), Some(content), &no_vars()).unwrap();
    assert_eq!(args.media_root, "/yt");
    assert_eq!(args.www_root, "/www/newtube.com");
}

#[test]
fn routine_args_override_paths() {
    let content = "MEDIA_ROOT=\"/yt\"\nWWW_ROOT=\"/www/newtube.com\"\n";
    let args = parse_routine_args(
        &argv(&["--media-root", "/data/yt", "--www-root", "/srv/site"]),
        Some(content),
        &no_vars(),
    )
    .unwrap();
    assert_eq!(args.media_root, "/data/yt");
    assert_eq!(args.www_root, "/srv/site");
}

#[test]
fn backend_args_default_media_root() {
    let content =
        "MEDIA_ROOT=\"/yt/test\"\nWWW_ROOT=\"/www/test\"\nNEWTUBE_PORT=\"4242\"\nNEWTUBE_HOST=\"127.0.0.1\"\n";
    let args = parse_backend_args(&argv(&[]), Some(content), &no_vars()).unwrap();
    assert_eq!(args.media_root, "/yt/test");
    assert_eq!(args.www_root, "/www/test");
    assert_eq!(args.newtube_port, 4242);
}

#[test]
fn backend_args_override_media_root() {
    let content =
        "MEDIA_ROOT=\"/yt/test\"\nWWW_ROOT=\"/www/test\"\nNEWTUBE_PORT=\"4242\"\nNEWTUBE_HOST=\"127.0.0.1\"\n";
    let args = parse_backend_args(
        &argv(&["--media-root", "/custom/media"]),
        Some(content),
        &no_vars(),
    )
    .unwrap();
    assert_eq!(args.media_root, "/custom/media");
}

#[test]
fn backend_args_override_www_root() {
    let content =
        "MEDIA_ROOT=\"/yt/test\"\nWWW_ROOT=\"/www/test\"\nNEWTUBE_PORT=\"4242\"\nNEWTUBE_HOST=\"127.0.0.1\"\n";
    let args = parse_backend_args(
        &argv(&["--www-root", "/custom/www"]),
        Some(content),
        &no_vars(),
    )
    .unwrap();
    assert_eq!(args.www_root, "/custom/www");
}

#[test]
fn backend_args_override_port() {
    let content =
        "MEDIA_ROOT=\"/yt/test\"\nWWW_ROOT=\"/www/test\"\nNEWTUBE_PORT=\"4242\"\nNEWTUBE_HOST=\"127.0.0.1\"\n";
    let args = parse_backend_args(&argv(&["--port", "9000"]), Some(content), &no_vars()).unwrap();
    assert_eq!(args.newtube_port, 9000);
    let err =
        parse_backend_args(&argv(&["--port", "notaport"]), Some(content), &no_vars()).unwrap_err();
    assert_eq!(err, ArgsErrorKind::InvalidPort);
}

#[test]
fn backend_args_override_host() {
    let content =
        "MEDIA_ROOT=\"/yt/test\"\nWWW_ROOT=\"/www/test\"\nNEWTUBE_PORT=\"4242\"\nNEWTUBE_HOST=\"127.0.0.1\"\n";
    let args = parse_backend_args(&argv(&["--host", "0.0.0.0"]), Some(content), &no_vars()).unwrap();
    assert_eq!(args.listen_host, "0.0.0.0");
}

fn meta(url: &str, name: &str) -> SubtitleMeta {
    SubtitleMeta { url: Some(url.to_string()), name: Some(name.to_string()) }
}

#[test]
fn collect_subtitles_prefers_local_files() {
    let manual = vec![("en".to_string(), vec![meta("https://remote/en.vtt", "English")])];
    let names_map = subtitle_name_map(&manual, &Vec::new());
    let files = vec!["abc.en.vtt".to_string()];
    let collection = collect_subtitles(
        "abc",
        &files,
        "/yt/subtitles/abc",
        &names_map,
        MediaCategory::Video,
    );
    assert_eq!(collection.languages.len(), 1);
    let track = &collection.languages[0];
    assert_eq!(track.code, "en");
    assert_eq!(track.name, "English");
    assert!(track.path.as_deref().unwrap().ends_with("abc.en.vtt"));
    assert!(track.url.contains("/api/videos/abc/subtitles/en"));
}

#[test]
fn collect_subtitles_ignores_remote_tracks() {
    let manual = vec![("en".to_string(), vec![meta("https://remote/en.vtt", "English")])];
    let names_map = subtitle_name_map(&manual, &Vec::new());
    let collection = collect_subtitles(
        "abc",
        &Vec::new(),
        "/yt/subtitles/abc",
        &names_map,
        MediaCategory::Video,
    );
    assert!(collection.languages.is_empty());
}

#[test]
fn subtitle_names_prefer_manual_listings() {
    let manual = vec![("en".to_string(), vec![meta("u", "English (manual)")])];
    let auto = vec![
        ("en".to_string(), vec![meta("u", "English (auto)")]),
        ("fr".to_string(), vec![meta("u", "French")]),
    ];
    let names_map = subtitle_name_map(&manual, &auto);
    let files = vec!["abc.en.vtt".to_string(), "abc.fr.vtt".to_string(), "abc.de.vtt".to_string()];
    let collection =
        collect_subtitles("abc", &files, "/yt/subtitles/abc", &names_map, MediaCategory::Video);
    assert_eq!(collection.languages.len(), 3);
    assert_eq!(collection.languages[0].name, "English (manual)");
    assert_eq!(collection.languages[1].name, "French");
    assert_eq!(collection.languages[2].name, "DE");
}

#[test]
fn collect_sources_skips_audio_only_formats() {
    let formats = vec![
        FormatMeta {
            format_id: Some("f/1".to_string()),
            format_note: None,
            width: Some(1920),
            height: Some(1080),
            fps_bits: Some(30.0f64.to_bits()),
            ext: Some("mp4".to_string()),
            vcodec: Some("avc1".to_string()),
            acodec: Some("mp4a".to_string()),
            filesize: Some(100),
            filesize_approx: None,
            dynamic_range: Some("HDR".to_string()),
        },
        FormatMeta {
            format_id: Some("audio".to_string()),
            format_note: None,
            width: None,
            height: None,
            fps_bits: None,
            ext: Some("m4a".to_string()),
            vcodec: Some("none".to_string()),
            acodec: Some("mp4a".to_string()),
            filesize: Some(50),
            filesize_approx: None,
            dynamic_range: None,
        },
    ];
    let existing = vec!["abc_f_1.mp4".to_string()];
    let sources = collect_sources("abc", &formats, &existing, "/yt/videos/abc", MediaCategory::Video);
    assert_eq!(sources.len(), 1);
    assert!(sources[0].url.contains("f_1"));
    assert_eq!(sources[0].quality_label.as_deref(), Some("1080p HDR"));
    assert_eq!(sources[0].mime_type.as_deref(), Some("video/mp4"));
    assert_eq!(sources[0].path.as_deref(), Some("/yt/videos/abc/abc_f_1.mp4"));

    // Without the muxed file on disk nothing is exposed.
    let none = collect_sources("abc", &formats, &Vec::new(), "/yt/videos/abc", MediaCategory::Video);
    assert!(none.is_empty());
}

#[test]
fn thumbnails_are_listed_in_sorted_order() {
    let files = vec!["second.jpg".to_string(), "first.jpg".to_string()];
    let urls = collect_thumbnails("abc", &files, MediaCategory::Video);
    assert_eq!(
        urls,
        vec![
            "/api/videos/abc/thumbnails/first.jpg",
            "/api/videos/abc/thumbnails/second.jpg",
        ]
    );
    assert!(collect_thumbnails("abc", &Vec::new(), MediaCategory::Video).is_empty());
}

#[test]
fn upsert_env_lines_updates_in_place() {
    let content = "# settings\n  export MEDIA_ROOT=\"/old\"\nWWW_ROOT='/www'\n";
    let rewritten = upsert_env_lines(content, "MEDIA_ROOT", "/new");
    assert_eq!(
        rewritten,
        "# settings\n  export MEDIA_ROOT=\"/new\"\nWWW_ROOT='/www'\n"
    );
    // Re-reading the rewritten file yields the new value.
    let vars = parse_env_file(&rewritten);
    assert_eq!(env_value(&vars, "MEDIA_ROOT").as_deref(), Some("/new"));
    assert_eq!(env_value(&vars, "WWW_ROOT").as_deref(), Some("/www"));
}

#[test]
fn upsert_env_lines_appends_missing_keys() {
    assert_eq!(
        upsert_env_lines("", "NEWTUBE_PORT", "9090"),
        "NEWTUBE_PORT=\"9090\"\n"
    );
    assert_eq!(
        upsert_env_lines("MEDIA_ROOT=\"/m\"", "NEWTUBE_PORT", "9090"),
        "MEDIA_ROOT=\"/m\"\nNEWTUBE_PORT=\"9090\"\n"
    );
}

#[test]
fn upsert_env_lines_escapes_values() {
    let rewritten = upsert_env_lines("", "GREETING", "say \"hi\" \\ bye");
    assert_eq!(rewritten, "GREETING=\"say \\\"hi\\\" \\\\ bye\"\n");
}
