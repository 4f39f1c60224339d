//! The records that the library hands to the user interface.
use vstd::prelude::*;

verus! {

/// One row of the media grid.
#[derive(Debug)]
pub struct MediaSummary {
    pub id: i64,
    pub file_path: String,
    pub file_name: String,
    pub file_size: i64,
    pub media_type: String,
    pub photo_taken_ts: Option<i64>,
    pub thumbnail_path: Option<String>,
    pub album_title: Option<String>,
}

/// A person tagged in the library, with the number of media that show them.
#[derive(Debug)]
pub struct PersonSummary {
    pub id: i64,
    pub name: String,
    pub count: i64,
}

/// An album, with the number of media that belong to it.
#[derive(Debug)]
pub struct AlbumSummary {
    pub id: i64,
    pub title: String,
    pub count: i64,
}

/// Totals shown in the header of the application.
#[derive(Debug)]
pub struct LibraryStats {
    pub total: i64,
    pub photos: i64,
    pub videos: i64,
    pub total_size_bytes: i64,
    pub people_count: i64,
    pub duplicate_groups: i64,
    pub indexed: bool,
}

/// A snapshot of the progress of a scan.
#[derive(Debug)]
pub struct IndexProgress {
    pub total: u64,
    pub done: u64,
    pub errors: u64,
    pub phase: String,
    pub running: bool,
}

/// The filters of a media search. Every filter that is set must hold of a result;
/// `people` asks for media that show every one of the listed people.
#[derive(Debug)]
pub struct SearchFilters {
    pub people: Vec<i64>,
    pub media_type: Option<String>,
    pub min_size_bytes: Option<i64>,
    pub max_size_bytes: Option<i64>,
    pub date_from: Option<i64>,
    pub date_to: Option<i64>,
    pub album_id: Option<i64>,
    pub sort_by: Option<String>,
    pub limit: Option<i64>,
    pub offset: Option<i64>,
}

impl SearchFilters {
    /// Filters that select everything.
    pub fn empty() -> (f: SearchFilters)
        ensures
            f.people@.len() == 0,
            f.media_type is None,
            f.min_size_bytes is None,
            f.max_size_bytes is None,
            f.date_from is None,
            f.date_to is None,
            f.album_id is None,
            f.sort_by is None,
            f.limit is None,
            f.offset is None,
    {
        SearchFilters {
            people: Vec::new(),
            media_type: None,
            min_size_bytes: None,
            max_size_bytes: None,
            date_from: None,
            date_to: None,
            album_id: None,
            sort_by: None,
            limit: None,
            offset: None,
        }
    }
}

impl Default for SearchFilters {
    fn default() -> (f: SearchFilters)
        ensures
            f.people@.len() == 0,
            f.media_type is None,
            f.min_size_bytes is None,
            f.max_size_bytes is None,
            f.date_from is None,
            f.date_to is None,
            f.album_id is None,
            f.sort_by is None,
            f.limit is None,
            f.offset is None,
    {
        SearchFilters::empty()
    }
}

/// A group of media that are duplicates of each other.
#[derive(Debug)]
pub struct DuplicateGroup {
    pub group_id: i64,
    pub match_type: String,
    pub items: Vec<DuplicateItem>,
}

impl View for DuplicateGroup {
    type V = (i64, String, Seq<DuplicateItem>);

    open spec fn view(&self) -> (i64, String, Seq<DuplicateItem>) {
        (self.group_id, self.match_type, self.items@)
    }
}

/// One member of a duplicate group.
#[derive(Debug)]
pub struct DuplicateItem {
    pub id: i64,
    pub file_path: String,
    pub file_name: String,
    pub file_size: i64,
    pub thumbnail_path: Option<String>,
    pub photo_taken_ts: Option<i64>,
    pub album_title: Option<String>,
}

/// What a clean-up would do to one duplicate group.
#[derive(Debug)]
pub struct CleanupPreviewItem {
    pub file_name: String,
    pub kept_path: String,
    pub deleted_paths: Vec<String>,
    pub bytes_freed: i64,
}

/// The outcome (or, for a dry run, the forecast) of a duplicate clean-up.
#[derive(Debug)]
pub struct CleanupResult {
    pub dry_run: bool,
    pub groups_eligible: i64,
    pub groups_skipped: i64,
    pub files_deleted: i64,
    pub bytes_freed: i64,
    pub preview: Vec<CleanupPreviewItem>,
}

/// Counters of a run that copies Takeout timestamps onto the media files.
#[derive(Debug, Clone, Copy, PartialEq, Eq, Structural)]
pub struct TakeoutFixResult {
    pub total_scanned: i64,
    pub updated: i64,
    pub no_sidecar: i64,
    pub errors: i64,
}

} // verus!
