//! Byte-range parsing, stream planning, and the format-slug resolution
//! of the media streaming path.

use newtube_core::errors::ApiErrorKind;
use newtube_core::media::{
    choose_mime, ensure_safe_path_segment, find_subtitle_track, normalize_format_id,
    path_within_base, pick_subtitle_file, resolve_stream_source, resolve_www_path,
    should_fallback_to_index, source_key, subtitle_extension_rank,
};
use newtube_core::range::{
    content_range_unsatisfiable, content_range_window, parse_range_header, plan_stream, StreamPlan,
};
use newtube_core::records::{SubtitleCollection, SubtitleTrack, VideoRecord, VideoSource};

fn sample_source(format_id: &str, path: Option<&str>) -> VideoSource {
    VideoSource {
        format_id: format_id.to_string(),
        quality_label: Some("1080p".to_string()),
        width: Some(1920),
        height: Some(1080),
        fps_bits: Some(30.0f64.to_bits()),
        mime_type: Some("video/mp4".to_string()),
        ext: Some("mp4".to_string()),
        file_size: Some(1024),
        url: format!("/api/videos/alpha/streams/{}", format_id),
        path: path.map(|p| p.to_string()),
    }
}

fn sample_video(id: &str) -> VideoRecord {
    VideoRecord {
        videoid: id.to_string(),
        title: format!("Video {}", id),
        description: "desc".to_string(),
        likes: Some(1),
        dislikes: Some(0),
        views: Some(10),
        upload_date: Some("2024-01-01T00:00:00Z".to_string()),
        author: Some("Channel".to_string()),
        subscriber_count: Some(100),
        duration: Some(60),
        duration_text: Some("1:00".to_string()),
        channel_url: Some("https://example.test/channel".to_string()),
        thumbnail_url: Some("/thumb.jpg".to_string()),
        tags: vec![],
        thumbnails: vec![],
        extras: "null".to_string(),
        sources: vec![sample_source("1080p", None)],
    }
}

#[test]
fn range_header_forms_resolve_as_specified() {
    assert_eq!(parse_range_header("bytes=0-99", 1000), Some((0, 99)));
    assert_eq!(parse_range_header("bytes=900-", 1000), Some((900, 999)));
    assert_eq!(parse_range_header("bytes=-50", 1000), Some((950, 999)));
    assert_eq!(plan_stream(1000, Some("bytes=5000-")), StreamPlan::Unsatisfiable);
}

#[test]
fn malformed_ranges_degrade_to_whole_file() {
    assert_eq!(parse_range_header("items=0-99", 1000), None);
    assert_eq!(parse_range_header("bytes=-0", 1000), None);
    assert_eq!(parse_range_header("bytes=", 1000), None);
    assert_eq!(parse_range_header("bytes=9-5", 1000), None);
    assert_eq!(parse_range_header("bytes=abc-def", 1000), None);
    assert_eq!(plan_stream(1000, Some("not a range")), StreamPlan::Whole);
    assert_eq!(plan_stream(1000, None), StreamPlan::Whole);
}

#[test]
fn partial_window_reports_exact_bytes() {
    let plan = plan_stream(10, Some("bytes=0-3"));
    assert_eq!(plan, StreamPlan::Window { start: 0, end: 3, length: 4 });
    assert_eq!(content_range_window(0, 3, 10), "bytes 0-3/10");
    assert_eq!(content_range_unsatisfiable(10), "bytes */10");
}

#[test]
fn end_is_clamped_to_file_size() {
    let plan = plan_stream(10, Some("bytes=4-5000"));
    assert_eq!(plan, StreamPlan::Window { start: 4, end: 9, length: 6 });
}

#[test]
fn missing_format_slug_is_not_found_without_touching_disk() {
    let record = sample_video("alpha");
    let err = resolve_stream_source(&record, "alpha", "4k", "/yt/videos").unwrap_err();
    assert_eq!(err.kind, ApiErrorKind::NotFound);
}

#[test]
fn stream_path_prefers_recorded_path() {
    let mut record = sample_video("alpha");
    record.sources = vec![sample_source("1080p", Some("/yt/videos/custom.mp4"))];
    let (path, mime) = resolve_stream_source(&record, "alpha", "1080p", "/yt/videos").unwrap();
    assert_eq!(path, "/yt/videos/custom.mp4");
    assert_eq!(mime.as_deref(), Some("video/mp4"));
}

#[test]
fn stream_path_defaults_to_conventional_location() {
    let record = sample_video("alpha");
    let (path, _) = resolve_stream_source(&record, "alpha", "1080p", "/yt/videos").unwrap();
    assert_eq!(path, "/yt/videos/alpha/alpha_1080p.mp4");
}

#[test]
fn format_ids_normalize_to_slugs() {
    assert_eq!(normalize_format_id("http/1080p:60"), "http_1080p_60");
    let with_blank = sample_source("  ", None);
    assert_eq!(source_key(&with_blank), None);
    let trimmed = sample_source(" f/1 ", None);
    assert_eq!(source_key(&trimmed).as_deref(), Some("f_1"));
}

#[test]
fn path_segments_cannot_escape_their_base() {
    assert!(ensure_safe_path_segment("alpha").is_ok());
    assert!(ensure_safe_path_segment("alpha/poster.png").is_ok());
    assert_eq!(
        ensure_safe_path_segment("../secret.txt").unwrap_err().kind,
        ApiErrorKind::NotFound
    );
    assert!(ensure_safe_path_segment("").is_err());
    assert!(ensure_safe_path_segment("/etc/passwd").is_err());
    assert!(ensure_safe_path_segment("a/../b").is_err());
}

#[test]
fn mime_resolution_prefers_explicit_type() {
    assert_eq!(
        choose_mime(Some("video/webm".to_string()), "clip.mp4").as_deref(),
        Some("video/webm")
    );
    assert_eq!(choose_mime(None, "clip.mp4").as_deref(), Some("video/mp4"));
    assert_eq!(choose_mime(None, "noextension"), None);
}

#[test]
fn index_fallback_only_for_extensionless_paths() {
    assert!(should_fallback_to_index("/"));
    assert!(should_fallback_to_index("/library"));
    assert!(should_fallback_to_index("/watch/alpha"));
    assert!(!should_fallback_to_index("/app.js"));
    assert!(!should_fallback_to_index("/assets/logo.png"));
}

#[test]
fn best_subtitle_format_wins() {
    let names = vec![
        "alpha.en.srt".to_string(),
        "alpha.en.vtt".to_string(),
        "alpha.fr.vtt".to_string(),
        "alpha.en.part".to_string(),
    ];
    assert_eq!(pick_subtitle_file(&names, "alpha", "en"), Some(1));
    assert_eq!(pick_subtitle_file(&names, "alpha", "de"), None);
    assert_eq!(subtitle_extension_rank("VTT"), 0);
    assert_eq!(subtitle_extension_rank("part"), 10);
}

#[test]
fn sanitized_records_carry_no_paths() {
    let mut record = sample_video("alpha");
    record.sources = vec![sample_source("1080p", Some("/yt/videos/alpha/secret.mp4"))];
    let clean = newtube_core::records::sanitize_video_record(&record);
    assert!(clean.sources[0].path.is_none());
    assert_eq!(clean.sources[0].format_id, "1080p");
    assert_eq!(clean.videoid, "alpha");
}

#[test]
fn www_paths_resolve_under_the_root() {
    assert_eq!(resolve_www_path("/www", "/").unwrap(), "/www/index.html");
    assert_eq!(resolve_www_path("/www", "/library").unwrap(), "/www/library");
    assert_eq!(
        resolve_www_path("/www", "/assets/app.js").unwrap(),
        "/www/assets/app.js"
    );
    assert!(resolve_www_path("/www", "/../etc/passwd").is_err());
}

#[test]
fn recorded_subtitle_paths_must_stay_under_their_directory() {
    assert!(path_within_base("/yt/subtitles/alpha/alpha.en.vtt", "/yt/subtitles/alpha"));
    assert!(path_within_base("/yt/subtitles/alpha", "/yt/subtitles/alpha"));
    assert!(!path_within_base("/yt/subtitles/alphabet/x.vtt", "/yt/subtitles/alpha"));
    assert!(!path_within_base("/yt/subtitles/alpha/../secret.vtt", "/yt/subtitles/alpha"));
    assert!(!path_within_base("/elsewhere/x.vtt", "/yt/subtitles/alpha"));
}

#[test]
fn subtitle_tracks_are_found_by_code() {
    let collection = SubtitleCollection {
        videoid: "alpha".to_string(),
        languages: vec![
            SubtitleTrack {
                code: "en".to_string(),
                name: "English".to_string(),
                url: "/api/videos/alpha/subtitles/en".to_string(),
                path: None,
            },
            SubtitleTrack {
                code: "fr".to_string(),
                name: "French".to_string(),
                url: "/api/videos/alpha/subtitles/fr".to_string(),
                path: None,
            },
        ],
    };
    assert_eq!(find_subtitle_track(&collection, "fr").unwrap().name, "French");
    assert!(find_subtitle_track(&collection, "de").is_none());
}
