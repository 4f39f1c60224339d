//! The decisions of a library scan: which files are indexed, when a file is
//! indexed again, where its sidecar may be, how progress is reported, and the
//! totals shown to the user.
use vstd::prelude::*;
use std::sync::{Arc, Mutex};
use std::time::{Duration, SystemTime, SystemTimeError, UNIX_EPOCH};
use crate::media::{classify_media_type, media_type_spec};
use crate::models::{AlbumSummary, IndexProgress, LibraryStats};
use crate::json::{album_display_title, album_display_title_spec, opt_string_view};
use crate::text::{
    all_ascii, ascii_lowercase, chars_of, ends_with_chars, extend_str, has_suffix, lowercase_of, string_from_chars, str_equal,
};

verus! {

/// The progress of a library scan, as the scanning thread reports it.
#[derive(Debug)]
pub struct Progress {
    pub total: u64,
    pub done: u64,
    pub errors: u64,
    pub phase: String,
    pub running: bool,
}

pub open spec fn wrapping_inc(x: u64) -> u64 {
    if x == u64::MAX {
        0
    } else {
        (x + 1) as u64
    }
}

impl Progress {
    /// No scan has run: nothing counted, phase `Idle`.
    pub fn new() -> (p: Progress)
        ensures
            p.total == 0,
            p.done == 0,
            p.errors == 0,
            p.phase@ == "Idle"@,
            !p.running,
    {
        Progress { total: 0, done: 0, errors: 0, phase: "Idle".to_owned(), running: false }
    }

    /// Whether a scan may start: not while one is running.
    pub fn check_can_start(&self) -> (r: Result<(), String>)
        ensures
            r is Ok <==> !self.running,
            r matches Err(e) ==> e@ == "Indexing already in progress"@,
    {
        if self.running {
            Err("Indexing already in progress".to_owned())
        } else {
            Ok(())
        }
    }

    /// A scan starts by walking the library for media files. Its counts of
    /// indexed and failed files start from zero, so that a scan run again is
    /// counted against its own total.
    pub fn begin_scan(&mut self)
        ensures
            final(self).running,
            final(self).phase@ == "Scanning files"@,
            final(self).total == old(self).total,
            final(self).done == 0,
            final(self).errors == 0,
    {
        self.running = true;
        self.phase = "Scanning files".to_owned();
        self.done = 0;
        self.errors = 0;
    }

    /// Starts a scan in one step, unless one is running: while a scan runs the
    /// request is refused and nothing changes; otherwise the scan starts as
    /// `begin_scan` starts it.
    pub fn try_begin(&mut self) -> (r: Result<(), String>)
        ensures
            r is Ok <==> !old(self).running,
            r matches Err(e) ==> e@ == "Indexing already in progress"@ && *final(self) == *old(self),
            r is Ok ==> final(self).running && final(self).phase@ == "Scanning files"@
                && final(self).total == old(self).total && final(self).done == 0
                && final(self).errors == 0,
    {
        if self.running {
            Err("Indexing already in progress".to_owned())
        } else {
            self.begin_scan();
            Ok(())
        }
    }

    /// The walk found `total` media files; they are indexed next.
    pub fn files_found(&mut self, total: u64)
        ensures
            final(self).total == total,
            final(self).phase@ == "Indexing media"@,
            final(self).running == old(self).running,
            final(self).done == old(self).done,
            final(self).errors == old(self).errors,
    {
        self.total = total;
        self.phase = "Indexing media".to_owned();
    }

    /// One more file was indexed, successfully or not. The counters wrap
    /// around as atomic additions do.
    pub fn file_indexed(&mut self, ok: bool)
        ensures
            final(self).done == wrapping_inc(old(self).done),
            final(self).errors == if ok {
                old(self).errors
            } else {
                wrapping_inc(old(self).errors)
            },
            (final(self).done, final(self).errors) == counts_after(
                old(self).done,
                old(self).errors,
                seq![ok],
            ),
            final(self).total == old(self).total,
            final(self).phase == old(self).phase,
            final(self).running == old(self).running,
    {
        proof {
            assert(seq![ok].drop_last() =~= Seq::<bool>::empty());
            assert(seq![ok].last() == ok);
            assert(counts_after(self.done, self.errors, Seq::<bool>::empty()) == (
                self.done,
                self.errors,
            ));
        }
        if !ok {
            self.errors = if self.errors == u64::MAX {
                0
            } else {
                self.errors + 1
            };
        }
        self.done = if self.done == u64::MAX {
            0
        } else {
            self.done + 1
        };
    }

    /// Records of files no longer on disk are removed next.
    pub fn begin_pruning(&mut self)
        ensures
            final(self).phase@ == "Pruning deleted files"@,
            final(self).total == old(self).total,
            final(self).done == old(self).done,
            final(self).errors == old(self).errors,
            final(self).running == old(self).running,
    {
        self.phase = "Pruning deleted files".to_owned();
    }

    /// Duplicates are detected next.
    pub fn begin_duplicates(&mut self)
        ensures
            final(self).phase@ == "Finding duplicates"@,
            final(self).total == old(self).total,
            final(self).done == old(self).done,
            final(self).errors == old(self).errors,
            final(self).running == old(self).running,
    {
        self.phase = "Finding duplicates".to_owned();
    }

    /// The scan completed.
    pub fn finish(&mut self)
        ensures
            final(self).phase@ == "Done"@,
            !final(self).running,
            final(self).total == old(self).total,
            final(self).done == old(self).done,
            final(self).errors == old(self).errors,
    {
        self.phase = "Done".to_owned();
        self.running = false;
    }

    /// The scan stopped on an error; the phase stays where it stopped.
    pub fn fail(&mut self)
        ensures
            !final(self).running,
            final(self).phase == old(self).phase,
            final(self).total == old(self).total,
            final(self).done == old(self).done,
            final(self).errors == old(self).errors,
    {
        self.running = false;
    }

    /// The progress as the user interface shows it.
    pub fn snapshot(&self) -> (s: IndexProgress)
        ensures
            s.total == self.total,
            s.done == self.done,
            s.errors == self.errors,
            s.phase == self.phase,
            s.running == self.running,
    {
        IndexProgress {
            total: self.total,
            done: self.done,
            errors: self.errors,
            phase: self.phase.clone(),
            running: self.running,
        }
    }
}

/// The `(done, errors)` counters after files with the outcomes `oks` (`true`
/// for a file indexed without error) were indexed one by one, as
/// `Progress::file_indexed` counts them.
pub open spec fn counts_after(done: u64, errors: u64, oks: Seq<bool>) -> (u64, u64)
    decreases oks.len(),
{
    if oks.len() == 0 {
        (done, errors)
    } else {
        let c = counts_after(done, errors, oks.drop_last());
        (wrapping_inc(c.0), if oks.last() {
            c.1
        } else {
            wrapping_inc(c.1)
        })
    }
}

/// The number of failed files among the outcomes.
pub open spec fn failures(oks: Seq<bool>) -> nat
    decreases oks.len(),
{
    if oks.len() == 0 {
        0
    } else {
        failures(oks.drop_last()) + if oks.last() {
            0nat
        } else {
            1nat
        }
    }
}

/// The counters of a scan that starts from zero: once the files are indexed,
/// `done` is the number of files and `errors` the number that failed, so
/// `errors` never exceeds `done`. (Past `u64::MAX` files the counters wrap.)
pub proof fn law_scan_counts(oks: Seq<bool>)
    requires
        oks.len() <= u64::MAX,
    ensures
        counts_after(0, 0, oks).0 == oks.len(),
        counts_after(0, 0, oks).1 == failures(oks),
        counts_after(0, 0, oks).1 <= counts_after(0, 0, oks).0,
    decreases oks.len(),
{
    if oks.len() > 0 {
        law_scan_counts(oks.drop_last());
    }
}

#[verifier::external_type_specification]
#[verifier::external_body]
#[verifier::reject_recursive_types(T)]
pub struct ExMutex<T: ?Sized>(std::sync::Mutex<T>);

/// What a lock around a scan's progress held when it was made. Later
/// contents depend on the threads that take the lock and are not named.
pub uninterp spec fn progress_lock_init(m: Mutex<Progress>) -> Progress;

/// What a lock around the chosen library folder held when it was made.
pub uninterp spec fn path_lock_init(m: Mutex<Option<String>>) -> Option<String>;

/// `std::sync::Mutex::new` around a scan's progress. Trusted: the lock holds
/// `p` when it is made.
#[verifier::external_body]
fn new_progress_lock(p: Progress) -> (m: Mutex<Progress>)
    ensures
        progress_lock_init(m) == p,
{
    Mutex::new(p)
}

/// `std::sync::Mutex::new` around the chosen library folder. Trusted: the lock
/// holds `p` when it is made.
#[verifier::external_body]
fn new_path_lock(p: Option<String>) -> (m: Mutex<Option<String>>)
    ensures
        path_lock_init(m) == p,
{
    Mutex::new(p)
}

/// The state shared by the commands of the application: the progress of the
/// scan in the background, and the library folder last asked for.
pub struct AppState {
    pub progress: Arc<Mutex<Progress>>,
    pub library_path: Mutex<Option<String>>,
}

impl AppState {
    /// The state at start-up: no scan has run and no library was chosen.
    pub fn new() -> (s: AppState)
        ensures
            progress_lock_init(*s.progress).total == 0,
            progress_lock_init(*s.progress).done == 0,
            progress_lock_init(*s.progress).errors == 0,
            progress_lock_init(*s.progress).phase@ == "Idle"@,
            !progress_lock_init(*s.progress).running,
            path_lock_init(s.library_path) is None,
    {
        AppState {
            progress: Arc::new(new_progress_lock(Progress::new())),
            library_path: new_path_lock(None),
        }
    }
}

/// Whether a file found while walking the library is a media file to index:
/// not a JSON file (album metadata or sidecar), not hidden, and with a photo or
/// video extension.
pub open spec fn indexable_spec(file_name: Seq<char>, ext: Seq<char>) -> bool {
    indexable_lower(file_name, lowercase_of(ext))
}

/// Whether a file is indexed, from its file name and its extension in lower case.
pub open spec fn indexable_lower(file_name: Seq<char>, lower_ext: Seq<char>) -> bool {
    &&& file_name != "metadata.json"@
    &&& !has_suffix(file_name, ".json"@)
    &&& !(file_name.len() > 0 && file_name[0] == '.')
    &&& media_type_spec(lower_ext) is Some
}

/// Decides whether a file is indexed, from its file name and extension.
pub fn is_indexable_file(file_name: &str, ext: &str) -> (r: bool)
    ensures
        r == indexable_spec(file_name@, ext@),
        all_ascii(ext@) ==> r == indexable_lower(file_name@, ascii_lowercase(ext@)),
{
    let f = chars_of(file_name);
    if str_equal(file_name, "metadata.json") {
        return false;
    }
    let j = chars_of(".json");
    if ends_with_chars(f.as_slice(), j.as_slice()) {
        return false;
    }
    if f.len() > 0 && f[0] == '.' {
        return false;
    }
    classify_media_type(ext).is_some()
}

/// The media type a file is indexed under: that of its extension, else `photo`.
pub fn media_type_or_photo(ext: &str) -> (r: &'static str)
    ensures
        r@ == match media_type_spec(lowercase_of(ext@)) {
            Some(t) => t,
            None => "photo"@,
        },
        all_ascii(ext@) ==> r@ == match media_type_spec(ascii_lowercase(ext@)) {
            Some(t) => t,
            None => "photo"@,
        },
{
    match classify_media_type(ext) {
        Some(t) => t,
        None => "photo",
    }
}

/// Whether the EXIF data of a file is read: for photos only.
pub fn reads_exif(media_type: &str) -> (r: bool)
    ensures
        r == (media_type@ == "photo"@),
{
    str_equal(media_type, "photo")
}

pub open spec fn opt_opt_view(o: Option<Option<String>>) -> Option<Option<Seq<char>>> {
    match o {
        Some(Some(h)) => Some(Some(h@)),
        Some(None) => Some(None),
        None => None,
    }
}

/// Whether a file is unchanged since it was indexed: it has a record with a
/// hash, and that hash is the file's hash now.
pub open spec fn unchanged_spec(existing: Option<Option<Seq<char>>>, hash: Seq<char>) -> bool {
    existing == Some(Some(hash))
}

/// Decides whether a file can keep its record (only its thumbnail may be made
/// again) or must be indexed again, from its record's hash (`None` when it has
/// no record) and its hash now.
pub fn is_unchanged(existing: &Option<Option<String>>, hash: &str) -> (r: bool)
    ensures
        r == unchanged_spec(opt_opt_view(*existing), hash@),
{
    match existing {
        Some(Some(h)) => str_equal(h.as_str(), hash),
        _ => false,
    }
}

/// The names a sidecar of the media file `file_name` may have, in the order
/// they are tried.
pub open spec fn sidecar_candidates_spec(file_name: Seq<char>) -> Seq<Seq<char>> {
    seq![
        file_name + ".supplemental-metadata.json"@,
        file_name + ".supplemental-m.json"@,
        file_name + ".suppl.json"@,
        file_name + ".supplemental-metadata(1).json"@,
    ]
}

fn with_suffix(file_name: &str, suffix: &str) -> (r: String)
    ensures
        r@ == file_name@ + suffix@,
{
    let mut v = chars_of(file_name);
    extend_str(&mut v, suffix);
    string_from_chars(v.as_slice())
}

/// The candidate sidecar names of a media file.
pub fn sidecar_candidates(file_name: &str) -> (r: Vec<String>)
    ensures
        r@.map_values(|s: String| s@) == sidecar_candidates_spec(file_name@),
{
    let mut r: Vec<String> = Vec::new();
    r.push(with_suffix(file_name, ".supplemental-metadata.json"));
    r.push(with_suffix(file_name, ".supplemental-m.json"));
    r.push(with_suffix(file_name, ".suppl.json"));
    r.push(with_suffix(file_name, ".supplemental-metadata(1).json"));
    assert(r@.map_values(|s: String| s@) =~= sidecar_candidates_spec(file_name@));
    r
}

/// The glob pattern of the fall-back sidecar search: any `.json` file in the
/// folder whose name starts with the media file's name.
pub fn sidecar_glob_pattern(dir: &str, file_name: &str) -> (r: String)
    ensures
        r@ == dir@ + "/"@ + file_name@ + "*.json"@,
{
    let mut v = chars_of(dir);
    extend_str(&mut v, "/");
    extend_str(&mut v, file_name);
    extend_str(&mut v, "*.json");
    string_from_chars(v.as_slice())
}

/// Whether a file that the fall-back search found can be a sidecar: an album's
/// `metadata.json` cannot, nor a path without a file name.
pub fn is_sidecar_match(entry_name: Option<&str>) -> (r: bool)
    ensures
        r == match entry_name {
            Some(n) => n@ != "metadata.json"@,
            None => false,
        },
{
    match entry_name {
        Some(n) => !str_equal(n, "metadata.json"),
        None => false,
    }
}

/// The totals of the library from its counting queries; a query that failed counts
/// as zero, and the library is indexed once it holds any media.
pub fn library_stats(
    total: Option<i64>,
    photos: Option<i64>,
    videos: Option<i64>,
    total_size: Option<i64>,
    people_count: Option<i64>,
    duplicate_groups: Option<i64>,
) -> (s: LibraryStats)
    ensures
        s.total == total.unwrap_or(0),
        s.photos == photos.unwrap_or(0),
        s.videos == videos.unwrap_or(0),
        s.total_size_bytes == total_size.unwrap_or(0),
        s.people_count == people_count.unwrap_or(0),
        s.duplicate_groups == duplicate_groups.unwrap_or(0),
        s.indexed == (total.unwrap_or(0) > 0),
{
    let total = total.unwrap_or(0);
    LibraryStats {
        total,
        photos: photos.unwrap_or(0),
        videos: videos.unwrap_or(0),
        total_size_bytes: total_size.unwrap_or(0),
        people_count: people_count.unwrap_or(0),
        duplicate_groups: duplicate_groups.unwrap_or(0),
        indexed: total > 0,
    }
}

/// Whether a media item belongs to a duplicate group, from the number of its
/// group memberships (a failed count counts as none).
pub fn in_duplicate_group(membership_count: Option<i64>) -> (r: bool)
    ensures
        r == (membership_count.unwrap_or(0) > 0),
{
    membership_count.unwrap_or(0) > 0
}

/// Whether the database record of a file that is being deleted can go: the file
/// is no longer on disk, or it was moved to the trash.
pub fn record_removable(on_disk: bool, trashed: bool) -> (r: bool)
    ensures
        r == (!on_disk || trashed),
{
    !on_disk || trashed
}

/// An album as the album list shows it, with its display title.
pub fn album_summary(
    id: i64,
    raw_title: Option<String>,
    dir_path: String,
    dir_file_name: Option<String>,
    count: i64,
) -> (a: AlbumSummary)
    ensures
        a.id == id,
        a.count == count,
        a.title@ == album_display_title_spec(
            opt_string_view(raw_title),
            dir_path@,
            opt_string_view(dir_file_name),
        ),
{
    AlbumSummary { id, title: album_display_title(raw_title, dir_path, dir_file_name), count }
}

/// The folder that holds the application's data, as path components: `APPDATA`
/// when it is set; else the home folder (`USERPROFILE`, else `HOME`, else the
/// current folder) followed by `AppData/Roaming`.
pub fn app_data_base(appdata: Option<String>, userprofile: Option<String>, home: Option<String>) -> (r: Vec<String>)
    ensures
        r@.map_values(|s: String| s@) == match appdata {
            Some(a) => seq![a@],
            None => seq![
                match userprofile {
                    Some(u) => u@,
                    None => match home {
                        Some(h) => h@,
                        None => "."@,
                    },
                },
                "AppData"@,
                "Roaming"@,
            ],
        },
{
    let mut r: Vec<String> = Vec::new();
    match appdata {
        Some(a) => {
            r.push(a);
        },
        None => {
            let h = match userprofile {
                Some(u) => u,
                None => match home {
                    Some(h) => h,
                    None => ".".to_owned(),
                },
            };
            r.push(h);
            r.push("AppData".to_owned());
            r.push("Roaming".to_owned());
        },
    }
    assert(r@.map_values(|s: String| s@) =~= match appdata {
        Some(a) => seq![a@],
        None => seq![
            match userprofile {
                Some(u) => u@,
                None => match home {
                    Some(h) => h@,
                    None => "."@,
                },
            },
            "AppData"@,
            "Roaming"@,
        ],
    });
    r
}

#[verifier::external_type_specification]
#[verifier::external_body]
pub struct ExSystemTime(std::time::SystemTime);

#[verifier::external_type_specification]
#[verifier::external_body]
pub struct ExSystemTimeError(std::time::SystemTimeError);

/// `std::time::SystemTime::now`: the system clock now. Trusted; what time it
/// gives is not stated.
#[verifier::external_body]
fn system_now() -> (t: SystemTime) {
    SystemTime::now()
}

/// `SystemTime::duration_since` with `UNIX_EPOCH` as the earlier time: the time
/// since 1970-01-01, or an error when `t` lies before it. Trusted; which of the
/// two comes back depends on the clock and is not stated.
#[verifier::external_body]
fn since_unix_epoch(t: &SystemTime) -> (r: Result<Duration, SystemTimeError>) {
    t.duration_since(UNIX_EPOCH)
}

/// `Duration::as_secs`: the whole seconds of a duration. Trusted; a `Duration`
/// is opaque here, so nothing is stated of the number.
#[verifier::external_body]
fn duration_secs(d: &Duration) -> (r: u64) {
    d.as_secs()
}

/// The Unix time recorded in `indexed_at`, from the seconds since 1970-01-01
/// (`None` when the clock is set before then, which counts as zero). The
/// seconds are cast to `i64` as they are, wrapping above `i64::MAX`.
pub fn epoch_seconds(secs_since_epoch: Option<u64>) -> (r: i64)
    ensures
        r == (secs_since_epoch.unwrap_or(0) as i64),
{
    let s: u64 = secs_since_epoch.unwrap_or(0);
    #[verifier::truncate]
    (s as i64)
}

/// The current Unix time in seconds, as recorded in `indexed_at`.
pub fn now_epoch() -> (r: i64) {
    let t = system_now();
    let secs: Option<u64> = match since_unix_epoch(&t) {
        Ok(d) => Some(duration_secs(&d)),
        Err(_) => None,
    };
    epoch_seconds(secs)
}

} // verus!
