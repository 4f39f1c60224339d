use photo_manager::exif_data::{exif_from_fields, ExifData};
use photo_manager::models::TakeoutFixResult;
use photo_manager::scan::{
    album_summary, app_data_base, in_duplicate_group, is_indexable_file, is_sidecar_match, is_unchanged,
    epoch_seconds, library_stats, media_type_or_photo, now_epoch, reads_exif, record_removable, sidecar_candidates,
    sidecar_glob_pattern, AppState, Progress,
};
use photo_manager::takeout::{takeout_timestamp, unix_secs_for_file, unix_to_filetime, TakeoutOutcome};

#[test]
fn which_files_are_indexed() {
    assert!(is_indexable_file("IMG_1.JPG", "JPG"));
    assert!(is_indexable_file("clip.mov", "mov"));
    assert!(!is_indexable_file("metadata.json", "json"));
    assert!(!is_indexable_file("IMG_1.jpg.supplemental-metadata.json", "json"));
    assert!(!is_indexable_file(".hidden.jpg", "jpg"));
    assert!(!is_indexable_file("notes.txt", "txt"));
}

#[test]
fn indexing_decisions() {
    assert_eq!(media_type_or_photo("MKV"), "video");
    assert_eq!(media_type_or_photo("xyz"), "photo");
    assert!(reads_exif("photo"));
    assert!(!reads_exif("video"));
    assert!(is_unchanged(&Some(Some("ab".to_string())), "ab"));
    assert!(!is_unchanged(&Some(Some("ab".to_string())), "cd"));
    assert!(!is_unchanged(&Some(None), "ab"));
    assert!(!is_unchanged(&None, "ab"));
}

#[test]
fn sidecar_search() {
    assert_eq!(
        sidecar_candidates("a.jpg"),
        vec![
            "a.jpg.supplemental-metadata.json".to_string(),
            "a.jpg.supplemental-m.json".to_string(),
            "a.jpg.suppl.json".to_string(),
            "a.jpg.supplemental-metadata(1).json".to_string(),
        ]
    );
    assert_eq!(sidecar_glob_pattern("/lib/2012", "a.jpg"), "/lib/2012/a.jpg*.json");
    assert!(is_sidecar_match(Some("a.jpg.json")));
    assert!(!is_sidecar_match(Some("metadata.json")));
    assert!(!is_sidecar_match(None));
}

#[test]
fn progress_of_a_scan() {
    let mut p = Progress::new();
    assert_eq!(p.phase, "Idle");
    assert!(p.check_can_start().is_ok());
    p.begin_scan();
    assert_eq!(p.check_can_start(), Err("Indexing already in progress".to_string()));
    assert_eq!(p.phase, "Scanning files");
    p.files_found(3);
    assert_eq!(p.phase, "Indexing media");
    p.file_indexed(true);
    p.file_indexed(false);
    p.file_indexed(true);
    assert_eq!((p.total, p.done, p.errors), (3, 3, 1));
    p.begin_pruning();
    assert_eq!(p.phase, "Pruning deleted files");
    p.begin_duplicates();
    assert_eq!(p.phase, "Finding duplicates");
    p.finish();
    let s = p.snapshot();
    assert_eq!(s.phase, "Done");
    assert!(!s.running);
    assert_eq!((s.total, s.done, s.errors), (3, 3, 1));
    p.begin_scan();
    p.fail();
    assert!(!p.running);
    assert_eq!(p.phase, "Scanning files");
}

#[test]
fn progress_counters_wrap_like_atomics() {
    let mut p = Progress::new();
    p.done = u64::MAX;
    p.errors = u64::MAX;
    p.file_indexed(false);
    assert_eq!((p.done, p.errors), (0, 0));
}

#[test]
fn shared_state_starts_idle() {
    let s = AppState::new();
    let p = s.progress.lock().unwrap();
    assert_eq!((p.total, p.done, p.errors, p.phase.as_str(), p.running), (0, 0, 0, "Idle", false));
    assert!(s.library_path.lock().unwrap().is_none());
}

#[test]
fn stats_and_flags() {
    let st = library_stats(Some(3), Some(2), Some(1), None, Some(4), Some(1));
    assert_eq!((st.total, st.photos, st.videos, st.total_size_bytes, st.people_count, st.duplicate_groups), (3, 2, 1, 0, 4, 1));
    assert!(st.indexed);
    assert!(!library_stats(None, None, None, None, None, None).indexed);
    assert!(in_duplicate_group(Some(2)));
    assert!(!in_duplicate_group(Some(0)));
    assert!(!in_duplicate_group(None));
    assert!(record_removable(false, false));
    assert!(record_removable(true, true));
    assert!(!record_removable(true, false));
    let a = album_summary(4, None, "2012/Trip".into(), Some("Trip".into()), 9);
    assert_eq!((a.id, a.title.as_str(), a.count), (4, "Trip", 9));
    assert_eq!(app_data_base(Some("C:\\AppData".into()), None, None), vec!["C:\\AppData".to_string()]);
    assert_eq!(app_data_base(None, None, Some("/home/u".into())), vec!["/home/u".to_string(), "AppData".into(), "Roaming".into()]);
    assert_eq!(app_data_base(None, Some("C:\\Users\\u".into()), Some("/h".into()))[0], "C:\\Users\\u");
    assert_eq!(app_data_base(None, None, None)[0], ".");
    assert!(now_epoch() > 1_600_000_000);
}

#[test]
fn epoch_seconds_from_clock_reading() {
    assert_eq!(epoch_seconds(Some(1_341_263_000)), 1_341_263_000);
    assert_eq!(epoch_seconds(None), 0);
    assert_eq!(epoch_seconds(Some(u64::MAX)), -1);
}

#[test]
fn exif_fields() {
    let e = exif_from_fields(Some(4000), Some(3000), Some("Canon".into()), None, Some("2012-07-02 21:03:19".into()));
    assert_eq!((e.width, e.height), (Some(4000), Some(3000)));
    assert_eq!(e.camera_make.as_deref(), Some("Canon"));
    assert_eq!(e.camera_model, None);
    assert_eq!(e.date_ts, Some(1341262999));
    let e = exif_from_fields(None, None, None, None, Some("2012:07:02 21:03:19".into()));
    assert_eq!(e.date_ts, None);
    let e = ExifData::empty();
    assert!(e.width.is_none() && e.date_ts.is_none());
}

#[test]
fn takeout_counters_stay_balanced() {
    let mut r = TakeoutFixResult::new();
    for o in [TakeoutOutcome::Updated, TakeoutOutcome::NoSidecar, TakeoutOutcome::NoTimestamp, TakeoutOutcome::SidecarError, TakeoutOutcome::SetTimesFailed, TakeoutOutcome::Updated] {
        r.record(o);
    }
    assert_eq!((r.total_scanned, r.updated, r.no_sidecar, r.errors), (6, 2, 2, 2));
    assert_eq!(r.total_scanned, r.updated + r.no_sidecar + r.errors);
}

#[test]
fn takeout_timestamps() {
    assert_eq!(takeout_timestamp(Some(5), Some(9)), Some(5));
    assert_eq!(takeout_timestamp(None, Some(9)), Some(9));
    assert_eq!(takeout_timestamp(None, None), None);
    assert_eq!(unix_to_filetime(0), (3577643008, 27111902));
    assert_eq!(unix_to_filetime(-11_644_473_601), (4284967296, 4294967295));
    assert_eq!(unix_secs_for_file(-5), 0);
    assert_eq!(unix_secs_for_file(1341262999), 1341262999);
}

#[test]
fn a_second_scan_is_refused_in_one_step() {
    let mut p = Progress::new();
    assert_eq!(p.try_begin(), Ok(()));
    assert!(p.running);
    assert_eq!(p.phase, "Scanning files");
    p.files_found(4);
    assert_eq!(p.try_begin(), Err("Indexing already in progress".to_string()));
    assert_eq!((p.total, p.phase.as_str(), p.running), (4, "Indexing media", true));
}

#[test]
fn a_scan_run_again_counts_from_zero() {
    let mut p = Progress::new();
    for _ in 0..2 {
        p.begin_scan();
        assert_eq!((p.done, p.errors), (0, 0));
        p.files_found(1);
        p.file_indexed(false);
        p.begin_pruning();
        p.begin_duplicates();
        p.finish();
        assert_eq!((p.total, p.done, p.errors, p.running), (1, 1, 1, false));
    }
    p.done = 7;
    assert_eq!(p.try_begin(), Ok(()));
    assert_eq!((p.done, p.errors), (0, 0));
}
