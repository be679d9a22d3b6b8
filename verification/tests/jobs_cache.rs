//! The job orchestrator's lifecycle rules and the version-gated cache.

use newtube_core::cache::ApiCache;
use newtube_core::jobs::{
    channel_download_args, media_kind_label, parse_media_kind, progress_file_path,
    video_download_args, DownloadStatus, JobTable,
};
use newtube_core::progress::{
    channel_lookup_failure_report, encode_progress_report, failure_report, ProgressReport,
};
use newtube_core::records::{CommentRecord, MediaCategory, VideoRecord, VideoSource};

fn sample_video(id: &str) -> VideoRecord {
    VideoRecord {
        videoid: id.to_string(),
        title: format!("Video {}", id),
        description: "desc".to_string(),
        likes: Some(1),
        dislikes: Some(0),
        views: Some(10),
        upload_date: Some("2024-01-01T00:00:00Z".to_string()),
        author: Some("Channel".to_string()),
        subscriber_count: Some(100),
        duration: Some(60),
        duration_text: Some("1:00".to_string()),
        channel_url: Some("https://example.test/channel".to_string()),
        thumbnail_url: Some("/thumb.jpg".to_string()),
        tags: vec![],
        thumbnails: vec![],
        extras: "null".to_string(),
        sources: vec![VideoSource {
            format_id: "1080p".to_string(),
            quality_label: Some("1080p".to_string()),
            width: Some(1920),
            height: Some(1080),
            fps_bits: Some(30.0f64.to_bits()),
            mime_type: Some("video/mp4".to_string()),
            ext: Some("mp4".to_string()),
            file_size: Some(1024),
            url: format!("/api/videos/{}/streams/1080p", id),
            path: None,
        }],
    }
}

fn sample_comment(id: &str, videoid: &str) -> CommentRecord {
    CommentRecord {
        id: id.to_string(),
        videoid: videoid.to_string(),
        author: "tester".to_string(),
        text: "hello world".to_string(),
        likes: Some(1),
        time_posted: Some("2024-01-01T00:00:00Z".to_string()),
        parent_comment_id: None,
        status_likedbycreator: false,
        reply_count: Some(0),
    }
}

#[test]
fn job_ids_are_distinct_and_increasing() {
    let mut jobs = JobTable::new();
    let first = jobs.register_job("/yt/downloads/a.json");
    let second = jobs.register_job("/yt/downloads/b.json");
    let third = jobs.register_job("/yt/downloads/c.json");
    assert_eq!(first, "download-1");
    assert_eq!(second, "download-2");
    assert_eq!(third, "download-3");
    assert_ne!(first, second);
    assert_ne!(second, third);
}

#[test]
fn job_lifecycle_reaches_completion() {
    let mut jobs = JobTable::new();
    let id = jobs.register_job("/yt/downloads/download-1.json");
    assert_eq!(id, "download-1");

    // Immediate poll: still queued, progress below 100, and both the
    // status and the message come from the in-memory record.
    let status = jobs.get_status(&id, Some(ProgressReport::new(0, "Queued download"))).unwrap();
    assert!(status.status == "queued" || status.status == "running");
    assert!(status.progress < 100);
    assert_eq!(status.message, "Queued");

    jobs.set_status(&id, DownloadStatus::Running, "Running");
    let status = jobs.get_status(&id, None).unwrap();
    assert_eq!(status.status, "running");
    assert_eq!(status.message, "Running");

    // Worker exits 0: the job reports completed; only the percentage is
    // taken from the freshly read file.
    jobs.finish(&id, None);
    let status = jobs.get_status(&id, Some(ProgressReport::new(100, "Download complete"))).unwrap();
    assert_eq!(status.status, "completed");
    assert_eq!(status.progress, 100);
    assert_eq!(status.message, "Done");
}

#[test]
fn terminal_status_never_reverts() {
    let mut jobs = JobTable::new();
    let id = jobs.register_job("/yt/downloads/download-1.json");
    jobs.set_status(&id, DownloadStatus::Running, "Running");
    jobs.finish(&id, Some("exit status 1"));
    let status = jobs.get_status(&id, None).unwrap();
    assert_eq!(status.status, "failed");
    assert_eq!(status.message, "Failed: exit status 1");

    // Attempts to move back, or across terminal states, change nothing.
    jobs.set_status(&id, DownloadStatus::Queued, "again");
    jobs.set_status(&id, DownloadStatus::Running, "again");
    jobs.set_status(&id, DownloadStatus::Success, "again");
    let status = jobs.get_status(&id, None).unwrap();
    assert_eq!(status.status, "failed");
    assert_eq!(status.message, "Failed: exit status 1");
}

#[test]
fn unknown_job_reports_nothing() {
    let jobs = JobTable::new();
    assert!(jobs.get_status("download-99", None).is_none());
    assert!(jobs.progress_file_of("download-99").is_none());
}

#[test]
fn downloader_invocations_carry_the_fixed_contract() {
    let args = video_download_args("/yt", "/www", "/yt/downloads/download-1.json", "abc", MediaCategory::Video);
    assert_eq!(
        args,
        vec![
            "--media-root",
            "/yt",
            "--www-root",
            "/www",
            "--progress-file",
            "/yt/downloads/download-1.json",
            "--video-id",
            "abc",
            "--media-kind",
            "video",
        ]
    );
    let args = channel_download_args("/yt", "/www", "/yt/downloads/download-2.json", "https://example.com/@c");
    assert_eq!(args.len(), 7);
    assert_eq!(args[6], "https://example.com/@c");
    assert_eq!(media_kind_label(MediaCategory::Short), "short");
    assert_eq!(
        progress_file_path("/yt", "download-1"),
        "/yt/downloads/download-1.json"
    );
}

#[test]
fn media_kind_parses_leniently() {
    assert!(matches!(parse_media_kind(None), MediaCategory::Video));
    assert!(matches!(parse_media_kind(Some("short")), MediaCategory::Short));
    assert!(matches!(parse_media_kind(Some(" Shorts ")), MediaCategory::Short));
    assert!(matches!(parse_media_kind(Some("video")), MediaCategory::Video));
    assert!(matches!(parse_media_kind(Some("whatever")), MediaCategory::Video));
}

#[test]
fn progress_reports_encode_and_clamp() {
    let report = ProgressReport::new(50, "Halfway");
    assert_eq!(
        encode_progress_report(&report),
        "{\"progress\":50,\"message\":\"Halfway\"}"
    );
    let clamped = ProgressReport::new(250, "too much");
    assert_eq!(clamped.progress, 100);
    let failed = failure_report();
    assert_eq!(failed.progress, 100);
    assert_eq!(failed.message, "Download failed");
    let lookup_failed = channel_lookup_failure_report();
    assert_eq!(lookup_failed.progress, 100);
    assert_eq!(lookup_failed.message, "Channel lookup failed");
    let escaped = ProgressReport::new(5, "say \"hi\"\\now");
    assert_eq!(
        encode_progress_report(&escaped),
        "{\"progress\":5,\"message\":\"say \\\"hi\\\"\\\\now\"}"
    );
}

#[test]
fn reads_between_version_changes_are_identical() {
    let mut cache = ApiCache::new();
    cache.ensure_fresh(7);
    let records = vec![sample_video("alpha"), sample_video("beta")];
    cache.store_media_list(MediaCategory::Video, &records);

    cache.ensure_fresh(7);
    let first = cache.cached_media_list(MediaCategory::Video).unwrap();
    cache.ensure_fresh(7);
    let second = cache.cached_media_list(MediaCategory::Video).unwrap();
    assert_eq!(first.len(), 2);
    assert_eq!(first.len(), second.len());
    assert_eq!(first[0].videoid, second[0].videoid);
    assert_eq!(first[1].videoid, second[1].videoid);

    // The list query back-fills the per-id index.
    let hit = cache.cached_media(MediaCategory::Video, "beta").unwrap();
    assert_eq!(hit.videoid, "beta");
}

#[test]
fn version_change_clears_the_whole_snapshot() {
    let mut cache = ApiCache::new();
    cache.ensure_fresh(1);
    let records = vec![sample_video("alpha")];
    cache.store_media_list(MediaCategory::Video, &records);
    cache.store_comments("alpha", &vec![sample_comment("c1", "alpha")]);
    assert!(cache.cached_media_list(MediaCategory::Video).is_some());
    assert!(cache.cached_comments("alpha").is_some());

    cache.ensure_fresh(2);
    assert!(cache.cached_media_list(MediaCategory::Video).is_none());
    assert!(cache.cached_media(MediaCategory::Video, "alpha").is_none());
    assert!(cache.cached_comments("alpha").is_none());
    assert!(cache.cached_subtitles("alpha").is_none());
    assert!(cache.cached_bootstrap().is_none());
}

#[test]
fn store_misses_are_never_cached() {
    let mut cache = ApiCache::new();
    cache.ensure_fresh(1);
    let err = cache.apply_media_result(MediaCategory::Video, "ghost", None).unwrap_err();
    assert_eq!(err.kind, newtube_core::errors::ApiErrorKind::NotFound);
    assert!(cache.cached_media(MediaCategory::Video, "ghost").is_none());

    let stored = cache
        .apply_media_result(MediaCategory::Video, "alpha", Some(sample_video("alpha")))
        .unwrap();
    assert_eq!(stored.videoid, "alpha");
    assert!(cache.cached_media(MediaCategory::Video, "alpha").is_some());

    // Absent subtitles are returned but not remembered.
    assert!(cache.apply_subtitles_result("alpha", None).is_none());
    assert!(cache.cached_subtitles("alpha").is_none());
}
