//! What kind of media a file is, how its thumbnail is made, and which content
//! type it is served with.
use vstd::prelude::*;
use crate::text::{all_ascii, ascii_lowercase, chars_of, chars_equal, ends_with_chars, has_suffix, lowercase_of, to_lowercase};

verus! {

/// The photo extensions that the library indexes (lower case).
pub open spec fn is_photo_ext(e: Seq<char>) -> bool {
    ||| e == "jpg"@
    ||| e == "jpeg"@
    ||| e == "png"@
    ||| e == "gif"@
    ||| e == "webp"@
    ||| e == "bmp"@
    ||| e == "heic"@
    ||| e == "heif"@
    ||| e == "arw"@
    ||| e == "dng"@
    ||| e == "tiff"@
    ||| e == "tif"@
}

/// The video extensions that the library indexes (lower case).
pub open spec fn is_video_ext(e: Seq<char>) -> bool {
    ||| e == "mp4"@
    ||| e == "mov"@
    ||| e == "avi"@
    ||| e == "m4v"@
    ||| e == "mpg"@
    ||| e == "mpeg"@
    ||| e == "3gp"@
    ||| e == "mkv"@
    ||| e == "wmv"@
}

fn is_literal(e: &[char], lit: &str) -> (b: bool)
    ensures
        b == (e@ == lit@),
{
    let l = chars_of(lit);
    chars_equal(e, l.as_slice())
}

pub fn is_photo_ext_exec(e: &[char]) -> (b: bool)
    ensures
        b == is_photo_ext(e@),
{
    is_literal(e, "jpg") || is_literal(e, "jpeg") || is_literal(e, "png") || is_literal(e, "gif")
        || is_literal(e, "webp") || is_literal(e, "bmp") || is_literal(e, "heic") || is_literal(
        e,
        "heif",
    ) || is_literal(e, "arw") || is_literal(e, "dng") || is_literal(e, "tiff") || is_literal(
        e,
        "tif",
    )
}

pub fn is_video_ext_exec(e: &[char]) -> (b: bool)
    ensures
        b == is_video_ext(e@),
{
    is_literal(e, "mp4") || is_literal(e, "mov") || is_literal(e, "avi") || is_literal(e, "m4v")
        || is_literal(e, "mpg") || is_literal(e, "mpeg") || is_literal(e, "3gp") || is_literal(
        e,
        "mkv",
    ) || is_literal(e, "wmv")
}

/// The media type of a lower-case extension: `photo`, `video`, or none.
pub open spec fn media_type_spec(lower: Seq<char>) -> Option<Seq<char>> {
    if is_photo_ext(lower) {
        Some("photo"@)
    } else if is_video_ext(lower) {
        Some("video"@)
    } else {
        None
    }
}

pub open spec fn opt_view(r: Option<&'static str>) -> Option<Seq<char>> {
    match r {
        Some(t) => Some(t@),
        None => None,
    }
}

/// The media type of an extension that is already in lower case.
pub fn classify_lowercase(lower: &str) -> (r: Option<&'static str>)
    ensures
        opt_view(r) == media_type_spec(lower@),
{
    let e = chars_of(lower);
    if is_photo_ext_exec(e.as_slice()) {
        Some("photo")
    } else if is_video_ext_exec(e.as_slice()) {
        Some("video")
    } else {
        None
    }
}

/// The media type of a file extension, compared without regard to case.
pub fn classify_media_type(ext: &str) -> (r: Option<&'static str>)
    ensures
        opt_view(r) == media_type_spec(lowercase_of(ext@)),
        all_ascii(ext@) ==> opt_view(r) == media_type_spec(ascii_lowercase(ext@)),
{
    let lower = to_lowercase(ext);
    classify_lowercase(lower.as_str())
}

/// The content type that the local file protocol serves a (lower-case) path with.
pub open spec fn mime_spec(p: Seq<char>) -> Seq<char> {
    if has_suffix(p, ".mp4"@) || has_suffix(p, ".m4v"@) {
        "video/mp4"@
    } else if has_suffix(p, ".webm"@) {
        "video/webm"@
    } else if has_suffix(p, ".mov"@) {
        "video/quicktime"@
    } else if has_suffix(p, ".avi"@) {
        "video/x-msvideo"@
    } else if has_suffix(p, ".mkv"@) {
        "video/x-matroska"@
    } else if has_suffix(p, ".png"@) {
        "image/png"@
    } else if has_suffix(p, ".gif"@) {
        "image/gif"@
    } else if has_suffix(p, ".webp"@) {
        "image/webp"@
    } else {
        "image/jpeg"@
    }
}

fn ends_with_literal(p: &[char], lit: &str) -> (b: bool)
    ensures
        b == has_suffix(p@, lit@),
{
    let l = chars_of(lit);
    ends_with_chars(p, l.as_slice())
}

/// The content type for a path that is already in lower case.
pub fn mime_for_lowercase(path: &str) -> (r: &'static str)
    ensures
        r@ == mime_spec(path@),
{
    let p = chars_of(path);
    let p = p.as_slice();
    if ends_with_literal(p, ".mp4") || ends_with_literal(p, ".m4v") {
        "video/mp4"
    } else if ends_with_literal(p, ".webm") {
        "video/webm"
    } else if ends_with_literal(p, ".mov") {
        "video/quicktime"
    } else if ends_with_literal(p, ".avi") {
        "video/x-msvideo"
    } else if ends_with_literal(p, ".mkv") {
        "video/x-matroska"
    } else if ends_with_literal(p, ".png") {
        "image/png"
    } else if ends_with_literal(p, ".gif") {
        "image/gif"
    } else if ends_with_literal(p, ".webp") {
        "image/webp"
    } else {
        "image/jpeg"
    }
}

/// The content type of a file, by its extension without regard to case;
/// anything unknown is served as JPEG.
pub fn guess_mime(path: &str) -> (r: &'static str)
    ensures
        r@ == mime_spec(lowercase_of(path@)),
        all_ascii(path@) ==> r@ == mime_spec(ascii_lowercase(path@)),
{
    let lower = to_lowercase(path);
    mime_for_lowercase(lower.as_str())
}

/// How the thumbnail of a file is made.
#[derive(Debug, Clone, Copy, PartialEq, Eq, Structural)]
pub enum ThumbnailRoute {
    /// No thumbnail: the file has no extension, or is a video.
    Skip,
    /// Decoded with libheif.
    Heic,
    /// Decoded with libjpeg-turbo, scaled down while decoding.
    Jpeg,
    /// Decoded with the `image` crate.
    Generic,
}

/// The thumbnail route for a lower-case extension (none when the file has none).
pub open spec fn thumbnail_route_spec(ext: Option<Seq<char>>) -> ThumbnailRoute {
    match ext {
        None => ThumbnailRoute::Skip,
        Some(e) => if is_video_ext(e) {
            ThumbnailRoute::Skip
        } else if e == "heic"@ || e == "heif"@ {
            ThumbnailRoute::Heic
        } else if e == "jpg"@ || e == "jpeg"@ {
            ThumbnailRoute::Jpeg
        } else {
            ThumbnailRoute::Generic
        },
    }
}

pub open spec fn opt_str_view(o: Option<&str>) -> Option<Seq<char>> {
    match o {
        Some(t) => Some(t@),
        None => None,
    }
}

/// Chooses how to make the thumbnail of a file from its lower-case extension.
pub fn thumbnail_route(ext: Option<&str>) -> (r: ThumbnailRoute)
    ensures
        r == thumbnail_route_spec(opt_str_view(ext)),
{
    match ext {
        None => ThumbnailRoute::Skip,
        Some(e) => {
            let c = chars_of(e);
            let c = c.as_slice();
            if is_video_ext_exec(c) {
                ThumbnailRoute::Skip
            } else if is_literal(c, "heic") || is_literal(c, "heif") {
                ThumbnailRoute::Heic
            } else if is_literal(c, "jpg") || is_literal(c, "jpeg") {
                ThumbnailRoute::Jpeg
            } else {
                ThumbnailRoute::Generic
            }
        },
    }
}

/// The factor by which a JPEG is scaled down while it is decoded.
#[derive(Debug, Clone, Copy, PartialEq, Eq, Structural)]
pub enum JpegScale {
    One,
    Half,
    Quarter,
    Eighth,
}

/// The coarsest scale that keeps both sides of a JPEG at 256 pixels or more;
/// lossless JPEGs cannot be scaled while decoding.
pub open spec fn jpeg_scale_spec(is_lossless: bool, width: usize, height: usize) -> JpegScale {
    let short = if width < height {
        width
    } else {
        height
    };
    if is_lossless {
        JpegScale::One
    } else if short >= 2048 {
        JpegScale::Eighth
    } else if short >= 1024 {
        JpegScale::Quarter
    } else if short >= 512 {
        JpegScale::Half
    } else {
        JpegScale::One
    }
}

/// Chooses the decode scale of a JPEG thumbnail from the image's header.
pub fn jpeg_scale(is_lossless: bool, width: usize, height: usize) -> (r: JpegScale)
    ensures
        r == jpeg_scale_spec(is_lossless, width, height),
{
    if is_lossless {
        return JpegScale::One;
    }
    let short = if width < height {
        width
    } else {
        height
    };
    if short >= 2048 {
        JpegScale::Eighth
    } else if short >= 1024 {
        JpegScale::Quarter
    } else if short >= 512 {
        JpegScale::Half
    } else {
        JpegScale::One
    }
}

/// The pixels of an interleaved RGB plane with rows `stride` bytes apart,
/// packed row after row without padding.
pub open spec fn packed_rows(data: Seq<u8>, width: nat, rows: nat, stride: nat) -> Seq<u8>
    decreases rows,
{
    if rows == 0 {
        Seq::<u8>::empty()
    } else {
        let r = (rows - 1) as nat;
        packed_rows(data, width, r, stride) + data.subrange(
            (r * stride) as int,
            (r * stride + width * 3) as int,
        )
    }
}

/// Packs the rows of a decoded RGB plane: for each of `height` rows, the first
/// `width * 3` bytes from the row's start at `row * stride`.
pub fn pack_rgb_rows(data: &[u8], width: usize, height: usize, stride: usize) -> (r: Vec<u8>)
    requires
        height > 0 ==> (height - 1) * stride + width * 3 <= data@.len(),
        width * 3 * height <= usize::MAX,
    ensures
        r@ == packed_rows(data@, width as nat, height as nat, stride as nat),
        r@.len() == width * 3 * height,
{
    let mut pixels: Vec<u8> = Vec::new();
    let mut row: usize = 0;
    let dl = data.len();
    proof {
        assert(width * 3 * height == height * (width * 3)) by (nonlinear_arith);
    }
    while row < height
        invariant
            row <= height,
            dl == data@.len(),
            height > 0 ==> (height - 1) * stride + width * 3 <= data@.len(),
            width * 3 * height <= usize::MAX,
            pixels@ == packed_rows(data@, width as nat, row as nat, stride as nat),
            pixels@.len() == row * (width * 3),
        decreases height - row,
    {
        proof {
            assert(row * stride <= (height - 1) * stride) by (nonlinear_arith)
                requires
                    row <= height - 1,
            ;
            assert((row + 1) * (width * 3) <= height * (width * 3)) by (nonlinear_arith)
                requires
                    row + 1 <= height,
            ;
            assert(height * (width * 3) == width * 3 * height) by (nonlinear_arith);
            assert((row + 1) * (width * 3) == row * (width * 3) + width * 3) by (nonlinear_arith);
            assert(row * stride + width * 3 <= dl);
        }
        let start = row * stride;
        let end = start + width * 3;
        let mut k: usize = start;
        let ghost before = pixels@;
        while k < end
            invariant
                start <= k <= end,
                end <= data@.len(),
                pixels@ == before + data@.subrange(start as int, k as int),
            decreases end - k,
        {
            pixels.push(data[k]);
            k = k + 1;
            assert(pixels@ =~= before + data@.subrange(start as int, k as int));
        }
        proof {
            assert(packed_rows(data@, width as nat, (row + 1) as nat, stride as nat) == packed_rows(
                data@,
                width as nat,
                row as nat,
                stride as nat,
            ) + data@.subrange((row * stride) as int, (row * stride + width * 3) as int));
        }
        row = row + 1;
    }
    pixels
}

/// The extensions the library indexes, and as what: exactly `jpg`, `jpeg`,
/// `png`, `gif`, `webp`, `bmp`, `heic`, `heif`, `arw`, `dng`, `tiff` and `tif`
/// are photos; exactly `mp4`, `mov`, `avi`, `m4v`, `mpg`, `mpeg`, `3gp`, `mkv`
/// and `wmv` are videos; every other extension is not indexed.
pub proof fn law_indexed_extensions(e: Seq<char>)
    ensures
        media_type_spec(e) == Some("photo"@) <==> (e == "jpg"@ || e == "jpeg"@ || e == "png"@ || e
            == "gif"@ || e == "webp"@ || e == "bmp"@ || e == "heic"@ || e == "heif"@ || e == "arw"@
            || e == "dng"@ || e == "tiff"@ || e == "tif"@),
        media_type_spec(e) == Some("video"@) <==> (e == "mp4"@ || e == "mov"@ || e == "avi"@ || e
            == "m4v"@ || e == "mpg"@ || e == "mpeg"@ || e == "3gp"@ || e == "mkv"@ || e == "wmv"@),
        media_type_spec(e) is None <==> !(e == "jpg"@ || e == "jpeg"@ || e == "png"@ || e == "gif"@
            || e == "webp"@ || e == "bmp"@ || e == "heic"@ || e == "heif"@ || e == "arw"@ || e
            == "dng"@ || e == "tiff"@ || e == "tif"@ || e == "mp4"@ || e == "mov"@ || e == "avi"@
            || e == "m4v"@ || e == "mpg"@ || e == "mpeg"@ || e == "3gp"@ || e == "mkv"@ || e
            == "wmv"@),
{
    lemma_photo_video_names_differ();
    lemma_extension_letters(e);
}

/// How thumbnails are made, by lower-case extension: `heic` and `heif`, and only
/// they, are decoded with libheif; `jpg` and `jpeg`, and only they, with
/// libjpeg-turbo; a video, or a file without an extension, gets none; every
/// other extension goes to the `image` crate. So every photo gets a thumbnail
/// route.
pub proof fn law_thumbnail_routes(e: Seq<char>)
    ensures
        thumbnail_route_spec(Some(e)) == ThumbnailRoute::Heic <==> (e == "heic"@ || e == "heif"@),
        thumbnail_route_spec(Some(e)) == ThumbnailRoute::Jpeg <==> (e == "jpg"@ || e == "jpeg"@),
        thumbnail_route_spec(Some(e)) == ThumbnailRoute::Skip <==> media_type_spec(e) == Some(
            "video"@,
        ),
        media_type_spec(e) == Some("photo"@) ==> thumbnail_route_spec(Some(e))
            != ThumbnailRoute::Skip,
        thumbnail_route_spec(None) == ThumbnailRoute::Skip,
{
    reveal_strlit("photo");
    reveal_strlit("video");
    reveal_strlit("heic");
    reveal_strlit("heif");
    reveal_strlit("jpg");
    reveal_strlit("jpeg");
    reveal_strlit("mp4");
    reveal_strlit("mov");
    reveal_strlit("avi");
    reveal_strlit("m4v");
    reveal_strlit("mpg");
    reveal_strlit("mpeg");
    reveal_strlit("3gp");
    reveal_strlit("mkv");
    reveal_strlit("wmv");
    lemma_photo_video_names_differ();
    lemma_extension_letters(e);
}

proof fn lemma_photo_video_names_differ()
    ensures
        "photo"@ != "video"@,
{
    reveal_strlit("photo");
    reveal_strlit("video");
    assert("photo"@[0] != "video"@[0]);
}

/// Which listed extension `e` is follows from its first two letters and its
/// length, so no extension is in two of the lists.
proof fn lemma_extension_letters(e: Seq<char>)
    ensures
        !(is_photo_ext(e) && is_video_ext(e)),
        !((e == "heic"@ || e == "heif"@) && (e == "jpg"@ || e == "jpeg"@)),
        (e == "heic"@ || e == "heif"@ || e == "jpg"@ || e == "jpeg"@) ==> is_photo_ext(e),
{
    reveal_strlit("jpg");
    reveal_strlit("jpeg");
    reveal_strlit("png");
    reveal_strlit("gif");
    reveal_strlit("webp");
    reveal_strlit("bmp");
    reveal_strlit("heic");
    reveal_strlit("heif");
    reveal_strlit("arw");
    reveal_strlit("dng");
    reveal_strlit("tiff");
    reveal_strlit("tif");
    reveal_strlit("mp4");
    reveal_strlit("mov");
    reveal_strlit("avi");
    reveal_strlit("m4v");
    reveal_strlit("mpg");
    reveal_strlit("mpeg");
    reveal_strlit("3gp");
    reveal_strlit("mkv");
    reveal_strlit("wmv");
    if is_video_ext(e) && is_photo_ext(e) {
        assert("jpg"@[0] == 'j' && "jpg"@[1] == 'p');
        assert("jpeg"@[0] == 'j' && "jpeg"@[1] == 'p');
        assert("png"@[0] == 'p' && "png"@[1] == 'n');
        assert("gif"@[0] == 'g' && "gif"@[1] == 'i');
        assert("webp"@[0] == 'w' && "webp"@[1] == 'e');
        assert("bmp"@[0] == 'b' && "bmp"@[1] == 'm');
        assert("heic"@[0] == 'h' && "heic"@[1] == 'e');
        assert("heif"@[0] == 'h' && "heif"@[1] == 'e');
        assert("arw"@[0] == 'a' && "arw"@[1] == 'r');
        assert("dng"@[0] == 'd' && "dng"@[1] == 'n');
        assert("tiff"@[0] == 't' && "tiff"@[1] == 'i');
        assert("tif"@[0] == 't' && "tif"@[1] == 'i');
        assert("mp4"@[0] == 'm' && "mp4"@[1] == 'p');
        assert("mov"@[0] == 'm' && "mov"@[1] == 'o');
        assert("avi"@[0] == 'a' && "avi"@[1] == 'v');
        assert("m4v"@[0] == 'm' && "m4v"@[1] == '4');
        assert("mpg"@[0] == 'm' && "mpg"@[1] == 'p');
        assert("mpeg"@[0] == 'm' && "mpeg"@[1] == 'p');
        assert("3gp"@[0] == '3' && "3gp"@[1] == 'g');
        assert("mkv"@[0] == 'm' && "mkv"@[1] == 'k');
        assert("wmv"@[0] == 'w' && "wmv"@[1] == 'm');
        assert(false);
    }
    if (e == "heic"@ || e == "heif"@) && (e == "jpg"@ || e == "jpeg"@) {
        assert("heic"@[0] == 'h');
        assert("heif"@[0] == 'h');
        assert("jpg"@[0] == 'j');
        assert("jpeg"@[0] == 'j');
        assert(false);
    }
}

} // verus!
