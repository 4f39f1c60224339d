//! Verified core of the photo manager: the rules that decide how a Google Photos
//! Takeout library is indexed, searched, grouped into duplicates and cleaned up.
pub mod text;
pub mod paths;
pub mod containment;
pub mod models;
pub mod duplicates;
pub mod cleanup;
pub mod http;
pub mod media;
pub mod json;
pub mod query;
pub mod hashing;
pub mod takeout;
pub mod exif_data;
pub mod scan;
