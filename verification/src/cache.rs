//! The version-gated read cache in front of the metadata store.
//!
//! Every request first runs the freshness check: the store's change counter
//! is compared with the last observed value, and on any difference the whole
//! snapshot is dropped at once — the cache is always either fully valid for
//! the observed version or empty, never partially stale. A not-found result
//! from the store is handed back but never cached, so a later write that
//! adds the record becomes visible immediately.
//!
//! The caller (the request handler outside the library) reads the change
//! counter and queries the store; this type makes every caching decision.

use vstd::prelude::*;

use crate::errors::{ApiError, ApiErrorKind};
use crate::records::{
    clone_comments, clone_records, BootstrapPayload, BootstrapPayloadView, CommentRecord,
    CommentRecordView, MediaCategory, SubtitleCollection, SubtitleCollectionView, VideoRecord,
    VideoRecordView,
};
use crate::text::str_eq;

verus! {

/// First value bound to `key`, scanning from the front. Newer entries are
/// inserted at the front, so the first match is the current binding.
pub open spec fn assoc_get<V>(m: Seq<(Seq<char>, V)>, key: Seq<char>) -> Option<V>
    decreases m.len(),
{
    if m.len() == 0 {
        None
    } else if m[0].0 == key {
        Some(m[0].1)
    } else {
        assoc_get(m.drop_first(), key)
    }
}

/// The details index after a full list query: each record of the list is
/// bound to its id, later records shadowing earlier ones.
pub open spec fn backfilled(
    details: Seq<(Seq<char>, VideoRecordView)>,
    records: Seq<VideoRecordView>,
) -> Seq<(Seq<char>, VideoRecordView)>
    decreases records.len(),
{
    if records.len() == 0 {
        details
    } else {
        backfilled(details, records.drop_last()).insert(
            0,
            (records.last().videoid, records.last()),
        )
    }
}

/// Mathematical view of the whole cache.
#[verifier::ext_equal]
pub struct ApiCacheView {
    pub videos: Option<Seq<VideoRecordView>>,
    pub shorts: Option<Seq<VideoRecordView>>,
    pub video_details: Seq<(Seq<char>, VideoRecordView)>,
    pub short_details: Seq<(Seq<char>, VideoRecordView)>,
    pub comments: Seq<(Seq<char>, Seq<CommentRecordView>)>,
    pub subtitles: Seq<(Seq<char>, SubtitleCollectionView)>,
    pub bootstrap: Option<BootstrapPayloadView>,
    pub last_db_version: Option<i64>,
}

/// In-memory cache of store reads, valid for exactly one observed value of
/// the store's change counter.
pub struct ApiCache {
    videos: Option<Vec<VideoRecord>>,
    shorts: Option<Vec<VideoRecord>>,
    video_details: Vec<(String, VideoRecord)>,
    short_details: Vec<(String, VideoRecord)>,
    comments: Vec<(String, Vec<CommentRecord>)>,
    subtitles: Vec<(String, SubtitleCollection)>,
    bootstrap: Option<BootstrapPayload>,
    last_db_version: Option<i64>,
}

impl View for ApiCache {
    type V = ApiCacheView;

    closed spec fn view(&self) -> ApiCacheView {
        ApiCacheView {
            videos: self.videos.deep_view(),
            shorts: self.shorts.deep_view(),
            video_details: self.video_details.deep_view(),
            short_details: self.short_details.deep_view(),
            comments: self.comments.deep_view(),
            subtitles: self.subtitles.deep_view(),
            bootstrap: self.bootstrap.deep_view(),
            last_db_version: self.last_db_version,
        }
    }
}

/// A cache with no entries at all.
pub open spec fn is_empty_cache(c: ApiCacheView) -> bool {
    &&& c.videos is None
    &&& c.shorts is None
    &&& c.video_details.len() == 0
    &&& c.short_details.len() == 0
    &&& c.comments.len() == 0
    &&& c.subtitles.len() == 0
    &&& c.bootstrap is None
}

/// The cached list for one category.
pub open spec fn media_list_of(c: ApiCacheView, category: MediaCategory) -> Option<
    Seq<VideoRecordView>,
> {
    match category {
        MediaCategory::Video => c.videos,
        MediaCategory::Short => c.shorts,
    }
}

/// The per-id details index for one category.
pub open spec fn details_of(c: ApiCacheView, category: MediaCategory) -> Seq<
    (Seq<char>, VideoRecordView),
> {
    match category {
        MediaCategory::Video => c.video_details,
        MediaCategory::Short => c.short_details,
    }
}

/// What the freshness check does to the cache: a changed counter empties
/// the whole snapshot, an unchanged or first-seen counter leaves every
/// entry in place; either way the new counter is recorded.
pub open spec fn spec_ensure_fresh(c: ApiCacheView, version: i64) -> ApiCacheView {
    if c.last_db_version matches Some(p) && p != version {
        ApiCacheView {
            videos: None,
            shorts: None,
            video_details: Seq::empty(),
            short_details: Seq::empty(),
            comments: Seq::empty(),
            subtitles: Seq::empty(),
            bootstrap: None,
            last_db_version: Some(version),
        }
    } else {
        ApiCacheView { last_db_version: Some(version), ..c }
    }
}

/// Between two changes of the store's counter the freshness check is the
/// identity, so every read in that span is a function of one unchanged
/// cache state: any sequence of reads returns identical results.
pub proof fn lemma_reads_stable_between_versions(c: ApiCacheView, version: i64)
    requires
        c.last_db_version == Some(version),
    ensures
        spec_ensure_fresh(c, version) == c,
{
}

/// The first read after a version change finds an empty cache: no lookup
/// can return pre-change data, so the response is built from fresh store
/// reads.
pub proof fn lemma_version_change_clears(c: ApiCacheView, version: i64)
    requires
        c.last_db_version matches Some(p) && p != version,
    ensures
        is_empty_cache(spec_ensure_fresh(c, version)),
        forall|cat: MediaCategory| media_list_of(spec_ensure_fresh(c, version), cat) is None,
        forall|cat: MediaCategory, id: Seq<char>|
            assoc_get(details_of(spec_ensure_fresh(c, version), cat), id) is None,
        forall|id: Seq<char>| assoc_get(spec_ensure_fresh(c, version).comments, id) is None,
        forall|id: Seq<char>| assoc_get(spec_ensure_fresh(c, version).subtitles, id) is None,
        spec_ensure_fresh(c, version).bootstrap is None,
{
}

impl ApiCache {
    /// An empty cache that has not yet observed any counter value.
    pub fn new() -> (c: Self)
        ensures
            is_empty_cache(c@),
            c@.last_db_version is None,
    {
        ApiCache {
            videos: None,
            shorts: None,
            video_details: Vec::new(),
            short_details: Vec::new(),
            comments: Vec::new(),
            subtitles: Vec::new(),
            bootstrap: None,
            last_db_version: None,
        }
    }

    /// Drops the entire snapshot at once, keeping the observed counter.
    pub fn clear(&mut self)
        ensures
            is_empty_cache(final(self)@),
            final(self)@.last_db_version == old(self)@.last_db_version,
    {
        self.videos = None;
        self.shorts = None;
        self.video_details = Vec::new();
        self.short_details = Vec::new();
        self.comments = Vec::new();
        self.subtitles = Vec::new();
        self.bootstrap = None;
    }

    /// The freshness check run before every read, with the counter value
    /// just read from the store.
    pub fn ensure_fresh(&mut self, version: i64)
        ensures
            final(self)@ == spec_ensure_fresh(old(self)@, version),
    {
        let stale = match self.last_db_version {
            Some(p) => p != version,
            None => false,
        };
        if stale {
            self.clear();
        }
        self.last_db_version = Some(version);
        proof {
            assert(final(self)@ =~= spec_ensure_fresh(old(self)@, version));
        }
    }

    /// The cached full list for a category, if one is present.
    pub fn cached_media_list(&self, category: MediaCategory) -> (r: Option<Vec<VideoRecord>>)
        ensures
            r.deep_view() == media_list_of(self@, category),
    {
        let cached = match category {
            MediaCategory::Video => &self.videos,
            MediaCategory::Short => &self.shorts,
        };
        match cached {
            None => None,
            Some(records) => Some(clone_records(records)),
        }
    }

    /// Remembers a full list query, also back-filling the per-id details
    /// index so later single-record lookups hit.
    pub fn store_media_list(&mut self, category: MediaCategory, records: &Vec<VideoRecord>)
        ensures
            media_list_of(final(self)@, category) == Some(records.deep_view()),
            details_of(final(self)@, category) == backfilled(
                details_of(old(self)@, category),
                records.deep_view(),
            ),
            media_list_of(final(self)@, category.flip()) == media_list_of(
                old(self)@,
                category.flip(),
            ),
            details_of(final(self)@, category.flip()) == details_of(old(self)@, category.flip()),
            final(self)@.comments == old(self)@.comments,
            final(self)@.subtitles == old(self)@.subtitles,
            final(self)@.bootstrap == old(self)@.bootstrap,
            final(self)@.last_db_version == old(self)@.last_db_version,
    {
        let copy = clone_records(records);
        match category {
            MediaCategory::Video => {
                self.videos = Some(copy);
            },
            MediaCategory::Short => {
                self.shorts = Some(copy);
            },
        }
        let ghost old_details = details_of(self@, category);
        let mut i: usize = 0;
        while i < records.len()
            invariant
                i <= records.len(),
                media_list_of(self@, category) == Some(records.deep_view()),
                details_of(self@, category) == backfilled(
                    old_details,
                    records.deep_view().take(i as int),
                ),
                media_list_of(self@, category.flip()) == media_list_of(
                    old(self)@,
                    category.flip(),
                ),
                details_of(self@, category.flip()) == details_of(old(self)@, category.flip()),
                self@.comments == old(self)@.comments,
                self@.subtitles == old(self)@.subtitles,
                self@.bootstrap == old(self)@.bootstrap,
                self@.last_db_version == old(self)@.last_db_version,
            decreases records.len() - i,
        {
            let record = records[i].clone();
            let key = record.videoid.clone();
            match category {
                MediaCategory::Video => {
                    self.video_details.insert(0, (key, record));
                },
                MediaCategory::Short => {
                    self.short_details.insert(0, (key, record));
                },
            }
            proof {
                let recs = records.deep_view();
                assert(recs.take(i + 1).drop_last() =~= recs.take(i as int));
                assert(recs.take(i + 1).last() == recs[i as int]);
                assert(details_of(self@, category) =~= backfilled(old_details, recs.take(i + 1)));
            }
            i = i + 1;
        }
        proof {
            assert(records.deep_view().take(records@.len() as int) =~= records.deep_view());
        }
    }

    /// The cached record of one id, if present.
    pub fn cached_media(&self, category: MediaCategory, videoid: &str) -> (r: Option<VideoRecord>)
        ensures
            r.deep_view() == assoc_get(details_of(self@, category), videoid@),
    {
        let details = match category {
            MediaCategory::Video => &self.video_details,
            MediaCategory::Short => &self.short_details,
        };
        let ghost m = details.deep_view();
        proof {
            assert(m.skip(0) =~= m);
        }
        let mut i: usize = 0;
        while i < details.len()
            invariant
                i <= details.len(),
                m == details.deep_view(),
                m == details_of(self@, category),
                assoc_get(m, videoid@) == assoc_get(m.skip(i as int), videoid@),
            decreases details.len() - i,
        {
            proof {
                assert(m.skip(i as int).drop_first() =~= m.skip(i + 1));
            }
            if str_eq(details[i].0.as_str(), videoid) {
                let out = details[i].1.clone();
                proof {
                    assert(m.skip(i as int)[0] == m[i as int]);
                    assert(m[i as int].0 == videoid@);
                    assert(assoc_get(m.skip(i as int), videoid@) == Some(m[i as int].1));
                    assert(out@ == m[i as int].1);
                }
                return Some(out);
            }
            i = i + 1;
        }
        None
    }

    /// Settles a single-record store read: a found record is cached and
    /// returned; a miss is reported as not-found and — deliberately —
    /// not cached, leaving the whole cache untouched.
    pub fn apply_media_result(
        &mut self,
        category: MediaCategory,
        videoid: &str,
        result: Option<VideoRecord>,
    ) -> (r: Result<VideoRecord, ApiError>)
        ensures
            match result {
                Some(rec) => {
                    &&& r matches Ok(out) && out@ == rec@
                    &&& details_of(final(self)@, category) == details_of(
                        old(self)@,
                        category,
                    ).insert(0, (videoid@, rec@))
                    &&& details_of(final(self)@, category.flip()) == details_of(
                        old(self)@,
                        category.flip(),
                    )
                    &&& media_list_of(final(self)@, MediaCategory::Video) == media_list_of(
                        old(self)@,
                        MediaCategory::Video,
                    )
                    &&& media_list_of(final(self)@, MediaCategory::Short) == media_list_of(
                        old(self)@,
                        MediaCategory::Short,
                    )
                    &&& final(self)@.comments == old(self)@.comments
                    &&& final(self)@.subtitles == old(self)@.subtitles
                    &&& final(self)@.bootstrap == old(self)@.bootstrap
                    &&& final(self)@.last_db_version == old(self)@.last_db_version
                },
                None => {
                    &&& r matches Err(e) && e.kind == ApiErrorKind::NotFound
                    &&& final(self)@ == old(self)@
                },
            },
    {
        match result {
            None => Err(ApiError::not_found("video not found")),
            Some(rec) => {
                let out = rec.clone();
                let key = String::from_str(videoid);
                match category {
                    MediaCategory::Video => {
                        self.video_details.insert(0, (key, rec));
                    },
                    MediaCategory::Short => {
                        self.short_details.insert(0, (key, rec));
                    },
                }
                Ok(out)
            },
        }
    }

    /// The cached comment list of one id, if present.
    pub fn cached_comments(&self, videoid: &str) -> (r: Option<Vec<CommentRecord>>)
        ensures
            r.deep_view() == assoc_get(self@.comments, videoid@),
    {
        let ghost m = self.comments.deep_view();
        proof {
            assert(m.skip(0) =~= m);
        }
        let mut i: usize = 0;
        while i < self.comments.len()
            invariant
                i <= self.comments.len(),
                m == self.comments.deep_view(),
                assoc_get(m, videoid@) == assoc_get(m.skip(i as int), videoid@),
            decreases self.comments.len() - i,
        {
            proof {
                assert(m.skip(i as int).drop_first() =~= m.skip(i + 1));
            }
            if str_eq(self.comments[i].0.as_str(), videoid) {
                proof {
                    assert(m.skip(i as int)[0] == m[i as int]);
                }
                return Some(clone_comments(&self.comments[i].1));
            }
            i = i + 1;
        }
        None
    }

    /// Remembers a comment query; an empty list is still a real answer
    /// and is cached like any other.
    pub fn store_comments(&mut self, videoid: &str, comments: &Vec<CommentRecord>)
        ensures
            final(self)@.comments == old(self)@.comments.insert(
                0,
                (videoid@, comments.deep_view()),
            ),
            final(self)@.videos == old(self)@.videos,
            final(self)@.shorts == old(self)@.shorts,
            final(self)@.video_details == old(self)@.video_details,
            final(self)@.short_details == old(self)@.short_details,
            final(self)@.subtitles == old(self)@.subtitles,
            final(self)@.bootstrap == old(self)@.bootstrap,
            final(self)@.last_db_version == old(self)@.last_db_version,
    {
        let key = String::from_str(videoid);
        self.comments.insert(0, (key, clone_comments(comments)));
    }

    /// The cached subtitle collection of one id, if present.
    pub fn cached_subtitles(&self, videoid: &str) -> (r: Option<SubtitleCollection>)
        ensures
            r.deep_view() == assoc_get(self@.subtitles, videoid@),
    {
        let ghost m = self.subtitles.deep_view();
        proof {
            assert(m.skip(0) =~= m);
        }
        let mut i: usize = 0;
        while i < self.subtitles.len()
            invariant
                i <= self.subtitles.len(),
                m == self.subtitles.deep_view(),
                assoc_get(m, videoid@) == assoc_get(m.skip(i as int), videoid@),
            decreases self.subtitles.len() - i,
        {
            proof {
                assert(m.skip(i as int).drop_first() =~= m.skip(i + 1));
            }
            if str_eq(self.subtitles[i].0.as_str(), videoid) {
                proof {
                    assert(m.skip(i as int)[0] == m[i as int]);
                }
                return Some(self.subtitles[i].1.clone());
            }
            i = i + 1;
        }
        None
    }

    /// Settles a subtitle store read: a present collection is cached and
    /// handed back; absence is handed back uncached, so subtitles added
    /// later are seen at once.
    pub fn apply_subtitles_result(
        &mut self,
        videoid: &str,
        result: Option<SubtitleCollection>,
    ) -> (r: Option<SubtitleCollection>)
        ensures
            r.deep_view() == result.deep_view(),
            match result {
                Some(c) => {
                    &&& final(self)@.subtitles == old(self)@.subtitles.insert(0, (videoid@, c@))
                    &&& final(self)@.videos == old(self)@.videos
                    &&& final(self)@.shorts == old(self)@.shorts
                    &&& final(self)@.video_details == old(self)@.video_details
                    &&& final(self)@.short_details == old(self)@.short_details
                    &&& final(self)@.comments == old(self)@.comments
                    &&& final(self)@.bootstrap == old(self)@.bootstrap
                    &&& final(self)@.last_db_version == old(self)@.last_db_version
                },
                None => final(self)@ == old(self)@,
            },
    {
        match result {
            None => None,
            Some(c) => {
                let out = c.clone();
                let key = String::from_str(videoid);
                self.subtitles.insert(0, (key, c));
                Some(out)
            },
        }
    }

    /// The cached bootstrap payload, if present.
    pub fn cached_bootstrap(&self) -> (r: Option<BootstrapPayload>)
        ensures
            match r {
                Some(p) => self@.bootstrap == Some(p@),
                None => self@.bootstrap is None,
            },
    {
        match &self.bootstrap {
            None => None,
            Some(p) => Some(
                BootstrapPayload {
                    videos: clone_records(&p.videos),
                    shorts: clone_records(&p.shorts),
                    subtitles: crate::records::clone_collections(&p.subtitles),
                    comments: clone_comments(&p.comments),
                },
            ),
        }
    }

    /// Remembers the assembled bootstrap payload.
    pub fn store_bootstrap(&mut self, payload: &BootstrapPayload)
        ensures
            final(self)@.bootstrap == Some(payload@),
            final(self)@.videos == old(self)@.videos,
            final(self)@.shorts == old(self)@.shorts,
            final(self)@.video_details == old(self)@.video_details,
            final(self)@.short_details == old(self)@.short_details,
            final(self)@.comments == old(self)@.comments,
            final(self)@.subtitles == old(self)@.subtitles,
            final(self)@.last_db_version == old(self)@.last_db_version,
    {
        self.bootstrap = Some(
            BootstrapPayload {
                videos: clone_records(&payload.videos),
                shorts: clone_records(&payload.shorts),
                subtitles: crate::records::clone_collections(&payload.subtitles),
                comments: clone_comments(&payload.comments),
            },
        );
    }
}

impl MediaCategory {
    /// The other category.
    pub open spec fn flip(self) -> MediaCategory {
        match self {
            MediaCategory::Video => MediaCategory::Short,
            MediaCategory::Short => MediaCategory::Video,
        }
    }
}

} // verus!
