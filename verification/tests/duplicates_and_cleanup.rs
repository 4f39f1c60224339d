use photo_manager::cleanup::{group_cleanup_rows, keep_order_exec, plan_cleanup, CleanupRow};
use photo_manager::duplicates::{group_duplicate_rows, parse_id_list, plan_duplicate_groups, MatchKind};
use photo_manager::models::DuplicateItem;

fn item(id: i64) -> DuplicateItem {
    DuplicateItem {
        id,
        file_path: format!("/lib/{}.jpg", id),
        file_name: format!("{}.jpg", id),
        file_size: 10 * id,
        thumbnail_path: None,
        photo_taken_ts: None,
        album_title: None,
    }
}

fn row(group_id: i64, id: i64, size: i64, album: Option<i64>) -> CleanupRow {
    CleanupRow {
        group_id,
        id,
        file_path: format!("p/{}.jpg", id),
        file_name: format!("f{}.jpg", id),
        file_size: size,
        album_id: album,
    }
}

#[test]
fn duplicate_rows_form_groups_in_order() {
    let rows = vec![
        (1, "hash".to_string(), item(3)),
        (1, "hash".to_string(), item(4)),
        (2, "exif_fingerprint".to_string(), item(5)),
        (2, "exif_fingerprint".to_string(), item(6)),
        (2, "exif_fingerprint".to_string(), item(7)),
        (1, "hash".to_string(), item(8)),
    ];
    let groups = group_duplicate_rows(rows);
    assert_eq!(groups.len(), 3);
    assert_eq!(groups[0].group_id, 1);
    assert_eq!(groups[0].match_type, "hash");
    assert_eq!(groups[0].items.iter().map(|i| i.id).collect::<Vec<_>>(), vec![3, 4]);
    assert_eq!(groups[1].group_id, 2);
    assert_eq!(groups[1].match_type, "exif_fingerprint");
    assert_eq!(groups[1].items.iter().map(|i| i.id).collect::<Vec<_>>(), vec![5, 6, 7]);
    assert_eq!(groups[2].group_id, 1);
    assert_eq!(groups[2].items.len(), 1);
    assert!(group_duplicate_rows(Vec::new()).is_empty());
}

#[test]
fn id_lists_from_group_concat() {
    assert_eq!(parse_id_list("1,2,3"), vec![1, 2, 3]);
    assert_eq!(parse_id_list(" 4 , x,5,"), vec![4, 5]);
    assert_eq!(parse_id_list(""), Vec::<i64>::new());
    assert_eq!(parse_id_list("-3,+2"), vec![-3, 2]);
}

#[test]
fn detection_numbers_hash_groups_then_exif_groups() {
    let hash = vec!["10,11".to_string(), "12,13,14".to_string()];
    let exif = vec!["20,21".to_string()];
    let a = plan_duplicate_groups(&hash, &exif);
    let got: Vec<(i64, i64, MatchKind)> = a.iter().map(|g| (g.group_id, g.media_id, g.kind)).collect();
    assert_eq!(
        got,
        vec![
            (1, 10, MatchKind::Hash),
            (1, 11, MatchKind::Hash),
            (2, 12, MatchKind::Hash),
            (2, 13, MatchKind::Hash),
            (2, 14, MatchKind::Hash),
            (3, 20, MatchKind::ExifFingerprint),
            (3, 21, MatchKind::ExifFingerprint),
        ]
    );
    assert_eq!(MatchKind::Hash.name(), "hash");
    assert_eq!(MatchKind::ExifFingerprint.name(), "exif_fingerprint");
}

#[test]
fn keeper_prefers_album_copy_then_lowest_id() {
    let sorted = keep_order_exec(vec![row(1, 5, 1, None), row(1, 9, 1, Some(3)), row(1, 2, 1, None), row(1, 7, 1, Some(1))]);
    assert_eq!(sorted.iter().map(|r| r.id).collect::<Vec<_>>(), vec![7, 9, 2, 5]);
    let sorted = keep_order_exec(vec![row(1, 5, 1, None), row(1, 2, 1, None)]);
    assert_eq!(sorted[0].id, 2);
}

#[test]
fn cleanup_rows_group_by_id() {
    let g = group_cleanup_rows(vec![row(1, 1, 1, None), row(1, 2, 1, None), row(4, 3, 1, None)]);
    assert_eq!(g.len(), 2);
    assert_eq!(g[0].len(), 2);
    assert_eq!(g[1][0].id, 3);
}

#[test]
fn dry_run_previews_without_deleting() {
    let rows = vec![
        row(1, 1, 100, None),
        row(1, 2, 200, Some(9)),
        row(1, 3, 300, None),
        row(2, 4, 50, None),
        row(2, 5, 60, None),
        row(3, 6, 70, None),
    ];
    let plan = plan_cleanup(rows, "/lib", true);
    let r = &plan.result;
    assert!(r.dry_run);
    assert_eq!(r.groups_eligible, 3);
    assert_eq!(r.groups_skipped, 0);
    assert_eq!(r.files_deleted, 3);
    assert_eq!(r.bytes_freed, 100 + 300 + 60);
    assert!(plan.to_delete.is_empty());
    assert_eq!(r.preview.len(), 3);
    assert_eq!(r.preview[0].file_name, "f2.jpg");
    assert_eq!(r.preview[0].kept_path, "/lib/p/2.jpg");
    assert_eq!(r.preview[0].deleted_paths, vec!["/lib/p/1.jpg".to_string(), "/lib/p/3.jpg".to_string()]);
    assert_eq!(r.preview[0].bytes_freed, 400);
    assert_eq!(r.preview[1].kept_path, "/lib/p/4.jpg");
    assert_eq!(r.preview[1].bytes_freed, 60);
    assert!(r.preview[2].deleted_paths.is_empty());
    assert_eq!(r.preview[2].bytes_freed, 0);
}

#[test]
fn cleanup_lists_copies_to_trash() {
    let rows = vec![row(1, 1, 100, None), row(1, 2, 200, Some(9)), row(2, 4, 50, None), row(2, 5, 60, None)];
    let plan = plan_cleanup(rows, "/lib/", false);
    assert!(!plan.result.dry_run);
    assert!(plan.result.preview.is_empty());
    assert_eq!(plan.result.files_deleted, 2);
    assert_eq!(plan.result.bytes_freed, 160);
    assert_eq!(plan.to_delete, vec![(1, "/lib/p/1.jpg".to_string()), (5, "/lib/p/5.jpg".to_string())]);
}

#[test]
fn dry_run_preview_is_capped_at_one_hundred_groups() {
    let mut rows = Vec::new();
    for g in 0..150i64 {
        rows.push(row(g, 2 * g, 1, None));
        rows.push(row(g, 2 * g + 1, 1, None));
    }
    let plan = plan_cleanup(rows, "", true);
    assert_eq!(plan.result.groups_eligible, 150);
    assert_eq!(plan.result.files_deleted, 150);
    assert_eq!(plan.result.bytes_freed, 150);
    assert_eq!(plan.result.preview.len(), 100);
}

#[test]
fn empty_cleanup() {
    let plan = plan_cleanup(Vec::new(), "/lib", true);
    assert_eq!(plan.result.groups_eligible, 0);
    assert_eq!(plan.result.files_deleted, 0);
    assert_eq!(plan.result.bytes_freed, 0);
    assert!(plan.result.preview.is_empty());
}

#[test]
fn keep_order_holds_every_member_once() {
    let group = vec![row(1, 9, 1, None), row(1, 4, 1, None), row(1, 7, 1, Some(2)), row(1, 5, 1, Some(2))];
    let sorted = keep_order_exec(group);
    let mut ids: Vec<i64> = sorted.iter().map(|r| r.id).collect();
    assert_eq!(ids, vec![5, 7, 4, 9]);
    ids.sort();
    assert_eq!(ids, vec![4, 5, 7, 9]);
}

#[test]
fn cleanup_sums_in_keep_order_within_i64() {
    let rows = vec![row(1, 1, i64::MAX, None), row(1, 2, i64::MAX, None), row(1, 3, -5, None)];
    let plan = plan_cleanup(rows, "/lib", true);
    assert_eq!(plan.result.bytes_freed, i64::MAX - 5);
    assert_eq!(plan.result.preview[0].bytes_freed, i64::MAX - 5);
}
