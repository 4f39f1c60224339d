use photo_manager::hashing::{heic_cache_file_name, hex_lower, md5_hex, thumbnail_file_name, ContentHash};
use photo_manager::json::{
    album_display_title, album_meta_from_json, album_meta_from_text, get_field, sidecar_from_json, sidecar_from_text, Json,
};
use photo_manager::models::SearchFilters;
use photo_manager::query::{build_media_query, order_text, SqlParam};

fn s(x: &str) -> Json {
    Json::Str(x.to_string())
}

fn obj(members: Vec<(&str, Json)>) -> Json {
    Json::Object(members.into_iter().map(|(k, v)| (k.to_string(), v)).collect())
}

#[test]
fn sidecar_fields() {
    let v = obj(vec![
        ("title", s("IMG_1.jpg")),
        ("description", s("")),
        ("imageViews", s("12")),
        ("photoTakenTime", obj(vec![("timestamp", s("1341262999")), ("formatted", s("x"))])),
        ("creationTime", obj(vec![("timestamp", s("not a number"))])),
        ("geoData", obj(vec![("latitude", Json::Number("1.5".to_string()))])),
        ("url", s("https://photos.google.com/x")),
        ("googlePhotosOrigin", obj(vec![("mobileUpload", obj(vec![("deviceType", s("ANDROID_PHONE"))]))])),
        ("people", Json::Array(vec![obj(vec![("name", s("Ann"))]), obj(vec![("name", s(""))]), obj(vec![]), obj(vec![("name", s("Bob"))])])),
    ]);
    let sc = sidecar_from_json(&v);
    assert_eq!(sc.title.as_deref(), Some("IMG_1.jpg"));
    assert_eq!(sc.description, None);
    assert_eq!(sc.image_views, Some(12));
    assert_eq!(sc.photo_taken_ts, Some(1341262999));
    assert_eq!(sc.creation_ts, None);
    assert_eq!(sc.google_url.as_deref(), Some("https://photos.google.com/x"));
    assert_eq!(sc.origin_type.as_deref(), Some("mobileUpload"));
    assert_eq!(sc.device_type.as_deref(), Some("ANDROID_PHONE"));
    assert_eq!(sc.people, vec!["Ann".to_string(), "Bob".to_string()]);
}

#[test]
fn sidecar_origin_order_and_missing_fields() {
    let v = obj(vec![("googlePhotosOrigin", obj(vec![("webUpload", obj(vec![])), ("picasa", obj(vec![]))]))]);
    let sc = sidecar_from_json(&v);
    assert_eq!(sc.origin_type.as_deref(), Some("picasa"));
    assert_eq!(sc.device_type, None);
    let sc = sidecar_from_json(&Json::Null);
    assert_eq!(sc.title, None);
    assert!(sc.people.is_empty());
    assert_eq!(sc.origin_type, None);
    let v = obj(vec![("googlePhotosOrigin", obj(vec![("picasa", s("not an object")), ("fromPartnerSharing", obj(vec![]))]))]);
    assert_eq!(sidecar_from_json(&v).origin_type.as_deref(), Some("fromPartnerSharing"));
    assert!(get_field(&Json::Array(vec![]), "title").is_none());
}

#[test]
fn album_metadata() {
    let v = obj(vec![("title", s("Trip")), ("access", s("protected")), ("date", obj(vec![("timestamp", s("42"))]))]);
    let a = album_meta_from_json(&v, Some("Folder".to_string()));
    assert_eq!(a.title.as_deref(), Some("Trip"));
    assert_eq!(a.description, None);
    assert_eq!(a.access.as_deref(), Some("protected"));
    assert_eq!(a.date_ts, Some(42));
    let a = album_meta_from_json(&obj(vec![("title", s(""))]), Some("Folder".to_string()));
    assert_eq!(a.title.as_deref(), Some("Folder"));
    let a = album_meta_from_json(&obj(vec![]), Some(String::new()));
    assert_eq!(a.title, None);
    assert_eq!(album_display_title(Some("T".into()), "a/b".into(), Some("b".into())), "T");
    assert_eq!(album_display_title(Some("".into()), "a/b".into(), Some("b".into())), "b");
    assert_eq!(album_display_title(None, "..".into(), None), "..");
}

#[test]
fn search_without_filters() {
    let q = build_media_query(&SearchFilters::default());
    assert_eq!(
        q.sql,
        "SELECT m.id, m.file_path, m.file_name, m.file_size, m.media_type, m.photo_taken_ts, m.thumbnail_path, a.title FROM media m LEFT JOIN albums a ON m.album_id = a.id  ORDER BY m.photo_taken_ts DESC NULLS LAST LIMIT ?1 OFFSET ?2"
    );
    assert_eq!(q.params.len(), 2);
    assert!(matches!(q.params[0], SqlParam::Int(100)));
    assert!(matches!(q.params[1], SqlParam::Int(0)));
}

#[test]
fn search_with_filters_numbers_placeholders_in_order() {
    let mut f = SearchFilters::empty();
    f.media_type = Some("photo".to_string());
    f.max_size_bytes = Some(5000);
    f.album_id = Some(3);
    f.people = vec![7, 8];
    f.sort_by = Some("size_asc".to_string());
    f.limit = Some(20);
    f.offset = Some(40);
    let q = build_media_query(&f);
    assert!(q.sql.contains("WHERE m.media_type = ?1 AND m.file_size <= ?2 AND m.album_id = ?3 AND EXISTS (SELECT 1 FROM media_people mp WHERE mp.media_id = m.id AND mp.person_id = ?4) AND EXISTS (SELECT 1 FROM media_people mp WHERE mp.media_id = m.id AND mp.person_id = ?5) ORDER BY m.file_size ASC LIMIT ?6 OFFSET ?7"));
    assert_eq!(q.params.len(), 7);
    assert!(matches!(&q.params[0], SqlParam::Text(t) if t == "photo"));
    assert!(matches!(q.params[1], SqlParam::Int(5000)));
    assert!(matches!(q.params[2], SqlParam::Int(3)));
    assert!(matches!(q.params[3], SqlParam::Int(7)));
    assert!(matches!(q.params[4], SqlParam::Int(8)));
    assert!(matches!(q.params[5], SqlParam::Int(20)));
    assert!(matches!(q.params[6], SqlParam::Int(40)));
}

#[test]
fn sort_orders() {
    assert_eq!(order_text(&Some("date_asc".into())), "m.photo_taken_ts ASC NULLS LAST");
    assert_eq!(order_text(&Some("size_desc".into())), "m.file_size DESC");
    assert_eq!(order_text(&Some("size_asc".into())), "m.file_size ASC");
    assert_eq!(order_text(&Some("other".into())), "m.photo_taken_ts DESC NULLS LAST");
    assert_eq!(order_text(&None), "m.photo_taken_ts DESC NULLS LAST");
}

#[test]
fn md5_hashes() {
    assert_eq!(md5_hex(b""), "d41d8cd98f00b204e9800998ecf8427e");
    assert_eq!(md5_hex(b"abc"), "900150983cd24fb0d6963f7d28e17f72");
    let mut h = ContentHash::new();
    h.feed(b"hello ");
    h.feed(b"");
    h.feed(b"world");
    assert_eq!(h.finish_hex(), "5eb63bbbe01eeed093cb22bb8f5acdc3");
    assert_eq!(hex_lower(&[0x00, 0x0f, 0xa0, 0xff]), "000fa0ff");
}

#[test]
fn cache_and_thumbnail_names() {
    assert_eq!(heic_cache_file_name("D:/Photos/a.heic"), "e95972357ca910b67af6fe94dce69f2b.jpg");
    assert_eq!(thumbnail_file_name("abc"), "abc.jpg");
}

#[test]
fn sidecar_read_from_its_text() {
    let text = r#"{
        "title": "IMG_1.jpg",
        "description": "",
        "imageViews": "3",
        "photoTakenTime": {"timestamp": "1341262999", "formatted": "x"},
        "geoData": {"latitude": 48.85, "longitude": 2.35, "altitude": 0.0},
        "googlePhotosOrigin": {"webUpload": {}},
        "people": [{"name": "Ann"}, {"name": ""}]
    }"#;
    let (sc, doc) = sidecar_from_text(text).unwrap();
    assert_eq!(sc.title.as_deref(), Some("IMG_1.jpg"));
    assert_eq!(sc.description, None);
    assert_eq!(sc.image_views, Some(3));
    assert_eq!(sc.photo_taken_ts, Some(1341262999));
    assert_eq!(sc.origin_type.as_deref(), Some("webUpload"));
    assert_eq!(sc.people, vec!["Ann".to_string()]);
    assert!(matches!(get_field(&doc, "geoData"), Some(Json::Object(_))));
    assert!(sidecar_from_text("{not json").is_none());
}

#[test]
fn album_metadata_read_from_its_text() {
    let a = album_meta_from_text(r#"{"title": "", "access": "protected", "date": {"timestamp": "1500000000"}}"#, Some("Trip".to_string())).unwrap();
    assert_eq!(a.title.as_deref(), Some("Trip"));
    assert_eq!(a.access.as_deref(), Some("protected"));
    assert_eq!(a.description, None);
    assert_eq!(a.date_ts, Some(1500000000));
    assert!(album_meta_from_text("", None).is_none());
}
