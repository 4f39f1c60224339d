//! What the library keeps of a photo's EXIF data: dimensions, camera, and the
//! moment the photo was taken.
use vstd::prelude::*;

verus! {

/// What chrono's `NaiveDateTime::parse_from_str(s, fmt)` followed by
/// `.and_utc().timestamp()` gives: the Unix time of the date and time that `s`
/// writes in the format `fmt`, read as UTC, if `s` is such a date and time.
pub uninterp spec fn naive_utc_timestamp(s: Seq<char>, fmt: Seq<char>) -> Option<i64>;

/// Reads a date and time in format `fmt` as a UTC Unix time, with chrono.
/// Trusted: the result is `naive_utc_timestamp` of the text and the format.
#[verifier::external_body]
pub(crate) fn parse_naive_utc_timestamp(s: &str, fmt: &str) -> (r: Option<i64>)
    ensures
        r == naive_utc_timestamp(s@, fmt@),
{
    chrono::NaiveDateTime::parse_from_str(s, fmt).ok().map(|dt| dt.and_utc().timestamp())
}

/// The format in which EXIF writes `DateTimeOriginal` once displayed,
/// for instance `2012-07-02 21:03:19`.
pub open spec fn exif_date_format() -> Seq<char> {
    "%Y-%m-%d %H:%M:%S"@
}

/// The EXIF data of a photo.
#[derive(Debug)]
pub struct ExifData {
    pub width: Option<i64>,
    pub height: Option<i64>,
    pub camera_make: Option<String>,
    pub camera_model: Option<String>,
    pub date_ts: Option<i64>,
}

pub open spec fn opt_u32_i64(v: Option<u32>) -> Option<i64> {
    match v {
        Some(x) => Some(x as i64),
        None => None,
    }
}

impl ExifData {
    /// No EXIF data (a video, or a file whose EXIF cannot be read).
    pub fn empty() -> (e: ExifData)
        ensures
            e.width is None,
            e.height is None,
            e.camera_make is None,
            e.camera_model is None,
            e.date_ts is None,
    {
        ExifData { width: None, height: None, camera_make: None, camera_model: None, date_ts: None }
    }
}

/// Builds the EXIF data of a photo from the fields read from its file: the first
/// value of `PixelXDimension` and `PixelYDimension`, the displayed `Make` and
/// `Model`, and the displayed `DateTimeOriginal`, read as a UTC time.
pub fn exif_from_fields(
    width: Option<u32>,
    height: Option<u32>,
    camera_make: Option<String>,
    camera_model: Option<String>,
    date_display: Option<String>,
) -> (e: ExifData)
    ensures
        e.width == opt_u32_i64(width),
        e.height == opt_u32_i64(height),
        e.camera_make == camera_make,
        e.camera_model == camera_model,
        e.date_ts == match date_display {
            Some(s) => naive_utc_timestamp(s@, exif_date_format()),
            None => None,
        },
{
    let date_ts = match &date_display {
        Some(s) => parse_naive_utc_timestamp(s.as_str(), "%Y-%m-%d %H:%M:%S"),
        None => None,
    };
    ExifData {
        width: match width {
            Some(w) => Some(w as i64),
            None => None,
        },
        height: match height {
            Some(h) => Some(h as i64),
            None => None,
        },
        camera_make,
        camera_model,
        date_ts,
    }
}

} // verus!
