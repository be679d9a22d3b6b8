//! The fixed directory layout under the media root, for the server side
//! (`FilePaths`) and the downloader side (`Paths`). Paths are carried as
//! plain strings with `/` separators; nothing here touches the
//! filesystem.

use vstd::prelude::*;

use crate::records::MediaCategory;

verus! {

/// Where the server finds each class of asset.
#[derive(Debug)]
pub struct FilePaths {
    pub videos: String,
    pub shorts: String,
    pub thumbnails: String,
    pub subtitles: String,
}

impl FilePaths {
    /// Builds the folder layout under the provided media root.
    pub fn new(media_root: &str) -> (r: Self)
        ensures
            r.videos@ == media_root@ + "/videos"@,
            r.shorts@ == media_root@ + "/shorts"@,
            r.thumbnails@ == media_root@ + "/thumbnails"@,
            r.subtitles@ == media_root@ + "/subtitles"@,
    {
        let mut videos = String::from_str(media_root);
        videos.append("/videos");
        let mut shorts = String::from_str(media_root);
        shorts.append("/shorts");
        let mut thumbnails = String::from_str(media_root);
        thumbnails.append("/thumbnails");
        let mut subtitles = String::from_str(media_root);
        subtitles.append("/subtitles");
        FilePaths { videos, shorts, thumbnails, subtitles }
    }

    /// Either the `videos` or the `shorts` directory.
    pub fn media_dir(&self, category: MediaCategory) -> (r: &String)
        ensures
            category is Video ==> r@ == self.videos@,
            category is Short ==> r@ == self.shorts@,
    {
        match category {
            MediaCategory::Video => &self.videos,
            MediaCategory::Short => &self.shorts,
        }
    }
}

/// Every location the downloader binary reads or writes.
#[derive(Debug)]
pub struct Paths {
    pub base: String,
    pub videos: String,
    pub shorts: String,
    pub subtitles: String,
    pub thumbnails: String,
    pub comments: String,
    pub archive: String,
    pub cookies: String,
    pub www_root: String,
    pub metadata_db: String,
}

impl Paths {
    /// Builds the layout from the two roots.
    pub fn with_roots(media_root: &str, www_root: &str) -> (r: Self)
        ensures
            r.base@ == media_root@,
            r.videos@ == media_root@ + "/videos"@,
            r.shorts@ == media_root@ + "/shorts"@,
            r.subtitles@ == media_root@ + "/subtitles"@,
            r.thumbnails@ == media_root@ + "/thumbnails"@,
            r.comments@ == media_root@ + "/comments"@,
            r.archive@ == media_root@ + "/download-archive.txt"@,
            r.cookies@ == media_root@ + "/cookies.txt"@,
            r.www_root@ == www_root@,
            r.metadata_db@ == media_root@ + "/metadata.db"@,
    {
        let mut videos = String::from_str(media_root);
        videos.append("/videos");
        let mut shorts = String::from_str(media_root);
        shorts.append("/shorts");
        let mut subtitles = String::from_str(media_root);
        subtitles.append("/subtitles");
        let mut thumbnails = String::from_str(media_root);
        thumbnails.append("/thumbnails");
        let mut comments = String::from_str(media_root);
        comments.append("/comments");
        let mut archive = String::from_str(media_root);
        archive.append("/download-archive.txt");
        let mut cookies = String::from_str(media_root);
        cookies.append("/cookies.txt");
        let mut metadata_db = String::from_str(media_root);
        metadata_db.append("/metadata.db");
        Paths {
            base: String::from_str(media_root),
            videos,
            shorts,
            subtitles,
            thumbnails,
            comments,
            archive,
            cookies,
            www_root: String::from_str(www_root),
            metadata_db,
        }
    }

    /// The on-disk directory for the provided media kind.
    pub fn media_dir(&self, kind: MediaCategory) -> (r: &String)
        ensures
            kind is Video ==> r@ == self.videos@,
            kind is Short ==> r@ == self.shorts@,
    {
        match kind {
            MediaCategory::Video => &self.videos,
            MediaCategory::Short => &self.shorts,
        }
    }

    /// The layout rooted at one base, with the www tree inside it.
    pub fn from_base(base: &str) -> (r: Self)
        ensures
            r.base@ == base@,
            r.videos@ == base@ + "/videos"@,
            r.shorts@ == base@ + "/shorts"@,
            r.subtitles@ == base@ + "/subtitles"@,
            r.thumbnails@ == base@ + "/thumbnails"@,
            r.comments@ == base@ + "/comments"@,
            r.archive@ == base@ + "/download-archive.txt"@,
            r.cookies@ == base@ + "/cookies.txt"@,
            r.www_root@ == base@ + "/www"@,
            r.metadata_db@ == base@ + "/metadata.db"@,
    {
        let mut www = String::from_str(base);
        www.append("/www");
        Paths::with_roots(base, www.as_str())
    }
}

} // verus!
