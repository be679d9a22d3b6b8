//! The metadata records that flow between the store, the cache, and the API
//! surface, together with their mathematical views and the sanitizers that
//! strip on-disk file paths out of API responses.
//!
//! A frame rate is carried as the raw bit pattern of its IEEE-754 value
//! (`fps_bits`), and free-form extra metadata as its serialized JSON text
//! (`extras`): both are opaque to the logic here and only travel through it.

use vstd::prelude::*;

verus! {

/// Whether a record describes a long-form video or a short.
#[derive(Clone, Copy, Debug, PartialEq, Eq, Structural)]
pub enum MediaCategory {
    Video,
    Short,
}

/// One downloadable rendition of a video.
#[derive(Debug)]
pub struct VideoSource {
    pub format_id: String,
    pub quality_label: Option<String>,
    pub width: Option<i64>,
    pub height: Option<i64>,
    pub fps_bits: Option<u64>,
    pub mime_type: Option<String>,
    pub ext: Option<String>,
    pub file_size: Option<i64>,
    pub url: String,
    pub path: Option<String>,
}

/// Mathematical view of a `VideoSource`.
pub struct VideoSourceView {
    pub format_id: Seq<char>,
    pub quality_label: Option<Seq<char>>,
    pub width: Option<i64>,
    pub height: Option<i64>,
    pub fps_bits: Option<u64>,
    pub mime_type: Option<Seq<char>>,
    pub ext: Option<Seq<char>>,
    pub file_size: Option<i64>,
    pub url: Seq<char>,
    pub path: Option<Seq<char>>,
}

impl View for VideoSource {
    type V = VideoSourceView;

    open spec fn view(&self) -> VideoSourceView {
        VideoSourceView {
            format_id: self.format_id@,
            quality_label: self.quality_label.deep_view(),
            width: self.width,
            height: self.height,
            fps_bits: self.fps_bits,
            mime_type: self.mime_type.deep_view(),
            ext: self.ext.deep_view(),
            file_size: self.file_size,
            url: self.url@,
            path: self.path.deep_view(),
        }
    }
}

impl DeepView for VideoSource {
    type V = VideoSourceView;

    open spec fn deep_view(&self) -> VideoSourceView {
        self.view()
    }
}

/// A row of the `videos` or `shorts` table.
#[derive(Debug)]
pub struct VideoRecord {
    pub videoid: String,
    pub title: String,
    pub description: String,
    pub likes: Option<i64>,
    pub dislikes: Option<i64>,
    pub views: Option<i64>,
    pub upload_date: Option<String>,
    pub author: Option<String>,
    pub subscriber_count: Option<i64>,
    pub duration: Option<i64>,
    pub duration_text: Option<String>,
    pub channel_url: Option<String>,
    pub thumbnail_url: Option<String>,
    pub tags: Vec<String>,
    pub thumbnails: Vec<String>,
    pub extras: String,
    pub sources: Vec<VideoSource>,
}

/// Mathematical view of a `VideoRecord`.
pub struct VideoRecordView {
    pub videoid: Seq<char>,
    pub title: Seq<char>,
    pub description: Seq<char>,
    pub likes: Option<i64>,
    pub dislikes: Option<i64>,
    pub views: Option<i64>,
    pub upload_date: Option<Seq<char>>,
    pub author: Option<Seq<char>>,
    pub subscriber_count: Option<i64>,
    pub duration: Option<i64>,
    pub duration_text: Option<Seq<char>>,
    pub channel_url: Option<Seq<char>>,
    pub thumbnail_url: Option<Seq<char>>,
    pub tags: Seq<Seq<char>>,
    pub thumbnails: Seq<Seq<char>>,
    pub extras: Seq<char>,
    pub sources: Seq<VideoSourceView>,
}

impl View for VideoRecord {
    type V = VideoRecordView;

    open spec fn view(&self) -> VideoRecordView {
        VideoRecordView {
            videoid: self.videoid@,
            title: self.title@,
            description: self.description@,
            likes: self.likes,
            dislikes: self.dislikes,
            views: self.views,
            upload_date: self.upload_date.deep_view(),
            author: self.author.deep_view(),
            subscriber_count: self.subscriber_count,
            duration: self.duration,
            duration_text: self.duration_text.deep_view(),
            channel_url: self.channel_url.deep_view(),
            thumbnail_url: self.thumbnail_url.deep_view(),
            tags: self.tags.deep_view(),
            thumbnails: self.thumbnails.deep_view(),
            extras: self.extras@,
            sources: self.sources.deep_view(),
        }
    }
}

impl DeepView for VideoRecord {
    type V = VideoRecordView;

    open spec fn deep_view(&self) -> VideoRecordView {
        self.view()
    }
}

/// One subtitle track of a video.
#[derive(Debug)]
pub struct SubtitleTrack {
    pub code: String,
    pub name: String,
    pub url: String,
    pub path: Option<String>,
}

/// Mathematical view of a `SubtitleTrack`.
pub struct SubtitleTrackView {
    pub code: Seq<char>,
    pub name: Seq<char>,
    pub url: Seq<char>,
    pub path: Option<Seq<char>>,
}

impl View for SubtitleTrack {
    type V = SubtitleTrackView;

    open spec fn view(&self) -> SubtitleTrackView {
        SubtitleTrackView {
            code: self.code@,
            name: self.name@,
            url: self.url@,
            path: self.path.deep_view(),
        }
    }
}

impl DeepView for SubtitleTrack {
    type V = SubtitleTrackView;

    open spec fn deep_view(&self) -> SubtitleTrackView {
        self.view()
    }
}

/// All subtitle tracks of one video.
#[derive(Debug)]
pub struct SubtitleCollection {
    pub videoid: String,
    pub languages: Vec<SubtitleTrack>,
}

/// Mathematical view of a `SubtitleCollection`.
pub struct SubtitleCollectionView {
    pub videoid: Seq<char>,
    pub languages: Seq<SubtitleTrackView>,
}

impl View for SubtitleCollection {
    type V = SubtitleCollectionView;

    open spec fn view(&self) -> SubtitleCollectionView {
        SubtitleCollectionView { videoid: self.videoid@, languages: self.languages.deep_view() }
    }
}

impl DeepView for SubtitleCollection {
    type V = SubtitleCollectionView;

    open spec fn deep_view(&self) -> SubtitleCollectionView {
        self.view()
    }
}

/// One stored comment.
#[derive(Debug)]
pub struct CommentRecord {
    pub id: String,
    pub videoid: String,
    pub author: String,
    pub text: String,
    pub likes: Option<i64>,
    pub time_posted: Option<String>,
    pub parent_comment_id: Option<String>,
    pub status_likedbycreator: bool,
    pub reply_count: Option<i64>,
}

/// Mathematical view of a `CommentRecord`.
pub struct CommentRecordView {
    pub id: Seq<char>,
    pub videoid: Seq<char>,
    pub author: Seq<char>,
    pub text: Seq<char>,
    pub likes: Option<i64>,
    pub time_posted: Option<Seq<char>>,
    pub parent_comment_id: Option<Seq<char>>,
    pub status_likedbycreator: bool,
    pub reply_count: Option<i64>,
}

impl View for CommentRecord {
    type V = CommentRecordView;

    open spec fn view(&self) -> CommentRecordView {
        CommentRecordView {
            id: self.id@,
            videoid: self.videoid@,
            author: self.author@,
            text: self.text@,
            likes: self.likes,
            time_posted: self.time_posted.deep_view(),
            parent_comment_id: self.parent_comment_id.deep_view(),
            status_likedbycreator: self.status_likedbycreator,
            reply_count: self.reply_count,
        }
    }
}

impl DeepView for CommentRecord {
    type V = CommentRecordView;

    open spec fn deep_view(&self) -> CommentRecordView {
        self.view()
    }
}

/// Everything the client needs to hydrate at startup.
#[derive(Debug)]
pub struct BootstrapPayload {
    pub videos: Vec<VideoRecord>,
    pub shorts: Vec<VideoRecord>,
    pub subtitles: Vec<SubtitleCollection>,
    pub comments: Vec<CommentRecord>,
}

/// Mathematical view of a `BootstrapPayload`.
pub struct BootstrapPayloadView {
    pub videos: Seq<VideoRecordView>,
    pub shorts: Seq<VideoRecordView>,
    pub subtitles: Seq<SubtitleCollectionView>,
    pub comments: Seq<CommentRecordView>,
}

impl View for BootstrapPayload {
    type V = BootstrapPayloadView;

    open spec fn view(&self) -> BootstrapPayloadView {
        BootstrapPayloadView {
            videos: self.videos.deep_view(),
            shorts: self.shorts.deep_view(),
            subtitles: self.subtitles.deep_view(),
            comments: self.comments.deep_view(),
        }
    }
}

impl DeepView for BootstrapPayload {
    type V = BootstrapPayloadView;

    open spec fn deep_view(&self) -> BootstrapPayloadView {
        self.view()
    }
}


/// Copies an optional string.
pub fn clone_opt_string(o: &Option<String>) -> (r: Option<String>)
    ensures
        r.deep_view() == o.deep_view(),
{
    match o {
        None => None,
        Some(s) => Some(s.clone()),
    }
}

/// Copies a vector of strings.
pub fn clone_strings(v: &Vec<String>) -> (r: Vec<String>)
    ensures
        r.deep_view() == v.deep_view(),
{
    let mut r: Vec<String> = Vec::new();
    let mut i: usize = 0;
    while i < v.len()
        invariant
            i <= v.len(),
            r@.len() == i,
            forall|j: int| 0 <= j < i ==> #[trigger] r@[j]@ == v@[j]@,
        decreases v.len() - i,
    {
        r.push(v[i].clone());
        i = i + 1;
    }
    proof {
        assert(r.deep_view() =~= v.deep_view());
    }
    r
}

impl Clone for VideoSource {
    fn clone(&self) -> (res: Self)
        ensures
            res@ == self@,
    {
        VideoSource {
            format_id: self.format_id.clone(),
            quality_label: clone_opt_string(&self.quality_label),
            width: self.width,
            height: self.height,
            fps_bits: self.fps_bits,
            mime_type: clone_opt_string(&self.mime_type),
            ext: clone_opt_string(&self.ext),
            file_size: self.file_size,
            url: self.url.clone(),
            path: clone_opt_string(&self.path),
        }
    }
}

/// Copies a vector of sources.
pub fn clone_sources(v: &Vec<VideoSource>) -> (r: Vec<VideoSource>)
    ensures
        r.deep_view() == v.deep_view(),
{
    let mut r: Vec<VideoSource> = Vec::new();
    let mut i: usize = 0;
    while i < v.len()
        invariant
            i <= v.len(),
            r@.len() == i,
            forall|j: int| 0 <= j < i ==> #[trigger] r@[j]@ == v@[j]@,
        decreases v.len() - i,
    {
        r.push(v[i].clone());
        i = i + 1;
    }
    proof {
        assert(r.deep_view() =~= v.deep_view());
    }
    r
}

impl Clone for VideoRecord {
    fn clone(&self) -> (res: Self)
        ensures
            res@ == self@,
    {
        VideoRecord {
            videoid: self.videoid.clone(),
            title: self.title.clone(),
            description: self.description.clone(),
            likes: self.likes,
            dislikes: self.dislikes,
            views: self.views,
            upload_date: clone_opt_string(&self.upload_date),
            author: clone_opt_string(&self.author),
            subscriber_count: self.subscriber_count,
            duration: self.duration,
            duration_text: clone_opt_string(&self.duration_text),
            channel_url: clone_opt_string(&self.channel_url),
            thumbnail_url: clone_opt_string(&self.thumbnail_url),
            tags: clone_strings(&self.tags),
            thumbnails: clone_strings(&self.thumbnails),
            extras: self.extras.clone(),
            sources: clone_sources(&self.sources),
        }
    }
}

impl Clone for SubtitleTrack {
    fn clone(&self) -> (res: Self)
        ensures
            res@ == self@,
    {
        SubtitleTrack {
            code: self.code.clone(),
            name: self.name.clone(),
            url: self.url.clone(),
            path: clone_opt_string(&self.path),
        }
    }
}

/// Copies a vector of subtitle tracks.
pub fn clone_tracks(v: &Vec<SubtitleTrack>) -> (r: Vec<SubtitleTrack>)
    ensures
        r.deep_view() == v.deep_view(),
{
    let mut r: Vec<SubtitleTrack> = Vec::new();
    let mut i: usize = 0;
    while i < v.len()
        invariant
            i <= v.len(),
            r@.len() == i,
            forall|j: int| 0 <= j < i ==> #[trigger] r@[j]@ == v@[j]@,
        decreases v.len() - i,
    {
        r.push(v[i].clone());
        i = i + 1;
    }
    proof {
        assert(r.deep_view() =~= v.deep_view());
    }
    r
}

impl Clone for SubtitleCollection {
    fn clone(&self) -> (res: Self)
        ensures
            res@ == self@,
    {
        SubtitleCollection {
            videoid: self.videoid.clone(),
            languages: clone_tracks(&self.languages),
        }
    }
}

impl Clone for CommentRecord {
    fn clone(&self) -> (res: Self)
        ensures
            res@ == self@,
    {
        CommentRecord {
            id: self.id.clone(),
            videoid: self.videoid.clone(),
            author: self.author.clone(),
            text: self.text.clone(),
            likes: self.likes,
            time_posted: clone_opt_string(&self.time_posted),
            parent_comment_id: clone_opt_string(&self.parent_comment_id),
            status_likedbycreator: self.status_likedbycreator,
            reply_count: self.reply_count,
        }
    }
}

/// Copies a vector of records.
pub fn clone_records(v: &Vec<VideoRecord>) -> (r: Vec<VideoRecord>)
    ensures
        r.deep_view() == v.deep_view(),
{
    let mut r: Vec<VideoRecord> = Vec::new();
    let mut i: usize = 0;
    while i < v.len()
        invariant
            i <= v.len(),
            r@.len() == i,
            forall|j: int| 0 <= j < i ==> #[trigger] r@[j]@ == v@[j]@,
        decreases v.len() - i,
    {
        r.push(v[i].clone());
        i = i + 1;
    }
    proof {
        assert(r.deep_view() =~= v.deep_view());
    }
    r
}

/// Copies a vector of comments.
pub fn clone_comments(v: &Vec<CommentRecord>) -> (r: Vec<CommentRecord>)
    ensures
        r.deep_view() == v.deep_view(),
{
    let mut r: Vec<CommentRecord> = Vec::new();
    let mut i: usize = 0;
    while i < v.len()
        invariant
            i <= v.len(),
            r@.len() == i,
            forall|j: int| 0 <= j < i ==> #[trigger] r@[j]@ == v@[j]@,
        decreases v.len() - i,
    {
        r.push(v[i].clone());
        i = i + 1;
    }
    proof {
        assert(r.deep_view() =~= v.deep_view());
    }
    r
}

/// Copies a vector of subtitle collections.
pub fn clone_collections(v: &Vec<SubtitleCollection>) -> (r: Vec<SubtitleCollection>)
    ensures
        r.deep_view() == v.deep_view(),
{
    let mut r: Vec<SubtitleCollection> = Vec::new();
    let mut i: usize = 0;
    while i < v.len()
        invariant
            i <= v.len(),
            r@.len() == i,
            forall|j: int| 0 <= j < i ==> #[trigger] r@[j]@ == v@[j]@,
        decreases v.len() - i,
    {
        r.push(v[i].clone());
        i = i + 1;
    }
    proof {
        assert(r.deep_view() =~= v.deep_view());
    }
    r
}

/// A source with its on-disk path withheld.
pub open spec fn sanitized_source(s: VideoSourceView) -> VideoSourceView {
    VideoSourceView { path: None, ..s }
}

/// A record whose sources all have their on-disk paths withheld.
pub open spec fn sanitized_record(r: VideoRecordView) -> VideoRecordView {
    VideoRecordView { sources: r.sources.map_values(|s: VideoSourceView| sanitized_source(s)), ..r }
}

/// A subtitle collection whose tracks have their on-disk paths withheld.
pub open spec fn sanitized_collection(c: SubtitleCollectionView) -> SubtitleCollectionView {
    SubtitleCollectionView {
        languages: c.languages.map_values(
            |t: SubtitleTrackView| SubtitleTrackView { path: None, ..t },
        ),
        ..c
    }
}

/// Copy of a record for an API response: every source keeps its metadata
/// but loses its filesystem path.
pub fn sanitize_video_record(record: &VideoRecord) -> (r: VideoRecord)
    ensures
        r@ == sanitized_record(record@),
{
    let mut clone = record.clone();
    let mut sources: Vec<VideoSource> = Vec::new();
    let mut i: usize = 0;
    while i < record.sources.len()
        invariant
            i <= record.sources.len(),
            sources@.len() == i,
            forall|j: int| 0 <= j < i ==> #[trigger] sources@[j]@ == sanitized_source(
                record.sources@[j]@,
            ),
        decreases record.sources.len() - i,
    {
        let mut s = record.sources[i].clone();
        s.path = None;
        sources.push(s);
        i = i + 1;
    }
    clone.sources = sources;
    proof {
        assert(clone.sources.deep_view() =~= record@.sources.map_values(
            |s: VideoSourceView| sanitized_source(s),
        ));
    }
    clone
}

/// Sanitized copies of a whole list of records.
pub fn sanitize_video_records(records: &Vec<VideoRecord>) -> (r: Vec<VideoRecord>)
    ensures
        r.deep_view() == records.deep_view().map_values(
            |rec: VideoRecordView| sanitized_record(rec),
        ),
{
    let mut r: Vec<VideoRecord> = Vec::new();
    let mut i: usize = 0;
    while i < records.len()
        invariant
            i <= records.len(),
            r@.len() == i,
            forall|j: int| 0 <= j < i ==> #[trigger] r@[j]@ == sanitized_record(records@[j]@),
        decreases records.len() - i,
    {
        r.push(sanitize_video_record(&records[i]));
        i = i + 1;
    }
    proof {
        assert(r.deep_view() =~= records.deep_view().map_values(
            |rec: VideoRecordView| sanitized_record(rec),
        ));
    }
    r
}

/// A subtitle collection for an API response, with on-disk paths withheld.
pub fn sanitize_subtitle_collection(collection: SubtitleCollection) -> (r: SubtitleCollection)
    ensures
        r@ == sanitized_collection(collection@),
{
    let mut tracks: Vec<SubtitleTrack> = Vec::new();
    let mut i: usize = 0;
    while i < collection.languages.len()
        invariant
            i <= collection.languages.len(),
            tracks@.len() == i,
            forall|j: int| 0 <= j < i ==> #[trigger] tracks@[j]@ == (SubtitleTrackView {
                path: None,
                ..collection.languages@[j]@
            }),
        decreases collection.languages.len() - i,
    {
        let mut t = collection.languages[i].clone();
        t.path = None;
        tracks.push(t);
        i = i + 1;
    }
    proof {
        assert(tracks.deep_view() =~= collection@.languages.map_values(
            |t: SubtitleTrackView| SubtitleTrackView { path: None, ..t },
        ));
    }
    SubtitleCollection { videoid: collection.videoid, languages: tracks }
}

/// Sanitized copies of a whole list of subtitle collections.
pub fn sanitize_subtitle_collections(v: &Vec<SubtitleCollection>) -> (r: Vec<SubtitleCollection>)
    ensures
        r.deep_view() == v.deep_view().map_values(
            |c: SubtitleCollectionView| sanitized_collection(c),
        ),
{
    let mut r: Vec<SubtitleCollection> = Vec::new();
    let mut i: usize = 0;
    while i < v.len()
        invariant
            i <= v.len(),
            r@.len() == i,
            forall|j: int| 0 <= j < i ==> #[trigger] r@[j]@ == sanitized_collection(v@[j]@),
        decreases v.len() - i,
    {
        r.push(sanitize_subtitle_collection(v[i].clone()));
        i = i + 1;
    }
    proof {
        assert(r.deep_view() =~= v.deep_view().map_values(
            |c: SubtitleCollectionView| sanitized_collection(c),
        ));
    }
    r
}

/// Assembles the bootstrap payload from fresh store reads, sanitizing
/// everything that may carry filesystem paths; comments carry none.
pub fn build_bootstrap(
    videos: &Vec<VideoRecord>,
    shorts: &Vec<VideoRecord>,
    subtitles: &Vec<SubtitleCollection>,
    comments: &Vec<CommentRecord>,
) -> (p: BootstrapPayload)
    ensures
        p@.videos == videos.deep_view().map_values(|r: VideoRecordView| sanitized_record(r)),
        p@.shorts == shorts.deep_view().map_values(|r: VideoRecordView| sanitized_record(r)),
        p@.subtitles == subtitles.deep_view().map_values(
            |c: SubtitleCollectionView| sanitized_collection(c),
        ),
        p@.comments == comments.deep_view(),
{
    BootstrapPayload {
        videos: sanitize_video_records(videos),
        shorts: sanitize_video_records(shorts),
        subtitles: sanitize_subtitle_collections(subtitles),
        comments: clone_comments(comments),
    }
}

} // verus!
