use photo_manager::containment::{access_allowed, path_components_exec, path_within};
use photo_manager::http::{content_range_value, parse_range, percent_decode, percent_decode_bytes, range_length};
use photo_manager::media::{
    classify_lowercase, classify_media_type, guess_mime, jpeg_scale, mime_for_lowercase, pack_rgb_rows,
    thumbnail_route, JpegScale, ThumbnailRoute,
};

#[test]
fn range_requests() {
    assert_eq!(parse_range("bytes=0-99", 1000), Some((0, 99)));
    assert_eq!(parse_range("bytes=500-", 1000), Some((500, 999)));
    assert_eq!(parse_range("bytes=0-5000", 1000), Some((0, 999)));
    assert_eq!(parse_range("bytes= 10 - 20 ", 1000), Some((10, 20)));
    assert_eq!(parse_range("bytes=10-5", 1000), None);
    assert_eq!(parse_range("bytes=abc-", 1000), None);
    assert_eq!(parse_range("bytes=-5", 1000), None);
    assert_eq!(parse_range("bytes=5", 1000), None);
    assert_eq!(parse_range("items=0-1", 1000), None);
    assert_eq!(parse_range("bytes=0-1-2", 1000), None);
    assert_eq!(parse_range("bytes=0-", 0), Some((0, 0)));
    assert_eq!(parse_range("bytes=1500-", 1000), None);
}

#[test]
fn partial_response_headers() {
    assert_eq!(content_range_value(0, 99, 1000), "bytes 0-99/1000");
    assert_eq!(range_length(0, 99), 100);
    assert_eq!(range_length(7, 7), 1);
}

#[test]
fn percent_escapes() {
    assert_eq!(percent_decode("C%3A%5CPhotos%20Dir/a.jpg"), "C:\\Photos Dir/a.jpg");
    assert_eq!(percent_decode("100%"), "100%");
    assert_eq!(percent_decode("%2"), "%2");
    assert_eq!(percent_decode("%zz%41"), "%zzA");
    assert_eq!(percent_decode("x%+5y"), "x\u{5}y");
    assert_eq!(percent_decode("%e2%82%ac"), "\u{20ac}");
    assert_eq!(percent_decode("%FF"), "\u{fffd}");
    assert_eq!(percent_decode("plain/path.png"), "plain/path.png");
    assert_eq!(percent_decode("C:/My%20Photos/caf%C3%A9+1.jpg"), "C:/My Photos/caf\u{e9}+1.jpg");
    assert_eq!(percent_decode("%zz"), "%zz");
    assert_eq!(percent_decode("50%-off"), "50%-off");
    assert_eq!(percent_decode_bytes(b"%41%42c"), b"ABc".to_vec());
}

#[test]
fn media_types() {
    assert_eq!(classify_media_type("JPG"), Some("photo"));
    assert_eq!(classify_media_type("heic"), Some("photo"));
    assert_eq!(classify_media_type("Mp4"), Some("video"));
    assert_eq!(classify_media_type("3GP"), Some("video"));
    assert_eq!(classify_media_type("txt"), None);
    assert_eq!(classify_media_type(""), None);
    assert_eq!(classify_lowercase("JPG"), None);
    assert_eq!(classify_lowercase("tif"), Some("photo"));
}

#[test]
fn content_types() {
    assert_eq!(guess_mime("a/b/clip.MP4"), "video/mp4");
    assert_eq!(guess_mime("x.m4v"), "video/mp4");
    assert_eq!(guess_mime("x.webm"), "video/webm");
    assert_eq!(guess_mime("x.MOV"), "video/quicktime");
    assert_eq!(guess_mime("x.avi"), "video/x-msvideo");
    assert_eq!(guess_mime("x.mkv"), "video/x-matroska");
    assert_eq!(guess_mime("x.PNG"), "image/png");
    assert_eq!(guess_mime("x.gif"), "image/gif");
    assert_eq!(guess_mime("x.webp"), "image/webp");
    assert_eq!(guess_mime("x.heic"), "image/jpeg");
    assert_eq!(mime_for_lowercase("x.PNG"), "image/jpeg");
}

#[test]
fn thumbnail_routes() {
    assert_eq!(thumbnail_route(None), ThumbnailRoute::Skip);
    assert_eq!(thumbnail_route(Some("mp4")), ThumbnailRoute::Skip);
    assert_eq!(thumbnail_route(Some("heif")), ThumbnailRoute::Heic);
    assert_eq!(thumbnail_route(Some("jpeg")), ThumbnailRoute::Jpeg);
    assert_eq!(thumbnail_route(Some("png")), ThumbnailRoute::Generic);
}

#[test]
fn jpeg_decode_scale() {
    assert_eq!(jpeg_scale(true, 5000, 5000), JpegScale::One);
    assert_eq!(jpeg_scale(false, 4000, 3000), JpegScale::Eighth);
    assert_eq!(jpeg_scale(false, 4000, 2047), JpegScale::Quarter);
    assert_eq!(jpeg_scale(false, 1024, 5000), JpegScale::Quarter);
    assert_eq!(jpeg_scale(false, 600, 800), JpegScale::Half);
    assert_eq!(jpeg_scale(false, 511, 800), JpegScale::One);
}

#[test]
fn rgb_rows_are_packed_without_padding() {
    // 2 pixels wide, 2 rows, 8 bytes between rows (2 bytes of padding each).
    let data: Vec<u8> = (0u8..14).collect();
    assert_eq!(pack_rgb_rows(&data, 2, 2, 8), vec![0, 1, 2, 3, 4, 5, 8, 9, 10, 11, 12, 13]);
    assert_eq!(pack_rgb_rows(&data, 2, 0, 8), Vec::<u8>::new());
}

#[test]
fn local_files_served_only_from_data_or_library() {
    let data = "C:\\Users\\u\\AppData\\Roaming\\photo-manager";
    assert!(access_allowed("C:/Users/u/AppData/Roaming/photo-manager/thumbs/ab.jpg", data, ""));
    assert!(access_allowed("D:/Takeout/Google Photos/2012/a.jpg", data, "D:\\Takeout"));
    assert!(!access_allowed("D:/Takeout/Google Photos/2012/a.jpg", data, ""));
    assert!(!access_allowed("C:/Windows/win.ini", data, "D:\\Takeout"));
    assert!(!access_allowed("D:/Takeout/../secret.txt", data, "D:\\Takeout"));
    assert!(!access_allowed("C:/Users/u/AppData/Roaming/photo-manager/../../x", data, ""));
    assert!(!access_allowed("D:/Takeout2/a.jpg", data, "D:/Takeout"));
}

#[test]
fn containment_resolves_dot_and_dot_dot() {
    let c = path_components_exec("/a/./b//c/../d/");
    let c: Vec<String> = c.into_iter().map(|v| v.into_iter().collect()).collect();
    assert_eq!(c, vec!["/", "a", "b", "d"]);
    let c = path_components_exec("/../x");
    let c: Vec<String> = c.into_iter().map(|v| v.into_iter().collect()).collect();
    assert_eq!(c, vec!["/", "x"]);
    let c = path_components_exec("../x/..");
    let c: Vec<String> = c.into_iter().map(|v| v.into_iter().collect()).collect();
    assert_eq!(c, vec![".."]);
    assert!(path_within("/lib/a/b.jpg", "/lib"));
    assert!(path_within("/lib", "/lib/"));
    assert!(!path_within("/lib/../etc/passwd", "/lib"));
    assert!(!path_within("lib/a.jpg", "/lib"));
    assert!(path_within("/lib/x/../a.jpg", "/lib"));
}

#[test]
fn extensions_compare_without_case() {
    assert_eq!(classify_media_type("HEIC"), Some("photo"));
    assert_eq!(classify_media_type("Mkv"), Some("video"));
    assert_eq!(guess_mime("Clip.MOV"), "video/quicktime");
}
