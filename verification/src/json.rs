//! The JSON documents of a Google Photos Takeout: the `.json` sidecar next to
//! each media file, and the `metadata.json` of each album folder.
use vstd::prelude::*;
use crate::text::{chars_of, parse_i64, parse_i64_spec, str_equal};

verus! {

/// A JSON value. Numbers are kept as their JSON text: the rules of the library
/// read no number (timestamps and view counts are strings in Takeout).
/// An object lists its members in order; its keys are distinct.
#[derive(Debug)]
pub enum Json {
    Null,
    Bool(bool),
    Number(String),
    Str(String),
    Array(Vec<Json>),
    Object(Vec<(String, Json)>),
}

/// The value of the first member named `key` among `members`.
pub open spec fn member(members: Seq<(String, Json)>, key: Seq<char>) -> Option<Json>
    decreases members.len(),
{
    if members.len() == 0 {
        None
    } else if members[0].0@ == key {
        Some(members[0].1)
    } else {
        member(members.drop_first(), key)
    }
}

/// `v[key]`: the member `key` of an object; nothing for a missing member or a
/// value that is not an object (serde_json then gives `Null`).
pub open spec fn field(v: Json, key: Seq<char>) -> Option<Json> {
    match v {
        Json::Object(m) => member(m@, key),
        _ => None,
    }
}

/// `v.as_str()`.
pub open spec fn as_str(v: Option<Json>) -> Option<Seq<char>> {
    match v {
        Some(Json::Str(s)) => Some(s@),
        _ => None,
    }
}

/// `v.is_object()`.
pub open spec fn is_object(v: Option<Json>) -> bool {
    match v {
        Some(Json::Object(_)) => true,
        _ => false,
    }
}

/// `v[a][b]`.
pub open spec fn field2(v: Json, a: Seq<char>, b: Seq<char>) -> Option<Json> {
    match field(v, a) {
        Some(w) => field(w, b),
        None => None,
    }
}

/// Looks up the member `key` of a JSON object.
pub fn get_field<'a>(v: &'a Json, key: &str) -> (r: Option<&'a Json>)
    ensures
        match r {
            Some(w) => field(*v, key@) == Some(*w),
            None => field(*v, key@) is None,
        },
{
    match v {
        Json::Object(m) => {
            let mut i: usize = 0;
            assert(m@.subrange(0, m@.len() as int) =~= m@);
            while i < m.len()
                invariant
                    *v == Json::Object(*m),
                    i <= m@.len(),
                    member(m@, key@) == member(m@.subrange(i as int, m@.len() as int), key@),
                decreases m@.len() - i,
            {
                let ghost t = m@.subrange(i as int, m@.len() as int);
                proof {
                    assert(t[0] == m@[i as int]);
                    assert(t.drop_first() =~= m@.subrange(i + 1, m@.len() as int));
                }
                if str_equal(m[i].0.as_str(), key) {
                    proof {
                        assert(t.len() > 0);
                        assert(member(t, key@) == Some(t[0].1));
                        assert(*v == Json::Object(*m));
                        assert(field(*v, key@) == member(m@, key@));
                        assert(m@[i as int].1 == m[i as int].1);
                    }
                    return Some(&m[i].1);
                }
                i = i + 1;
            }
            None
        },
        _ => None,
    }
}

/// Looks up `v[a][b]`.
pub fn get_field2<'a>(v: &'a Json, a: &str, b: &str) -> (r: Option<&'a Json>)
    ensures
        match r {
            Some(w) => field2(*v, a@, b@) == Some(*w),
            None => field2(*v, a@, b@) is None,
        },
{
    match get_field(v, a) {
        Some(w) => get_field(w, b),
        None => None,
    }
}

pub open spec fn opt_string_view(o: Option<String>) -> Option<Seq<char>> {
    match o {
        Some(s) => Some(s@),
        None => None,
    }
}

/// The text of a string value.
pub fn str_of(v: Option<&Json>) -> (r: Option<String>)
    ensures
        opt_string_view(r) == as_str(
            match v {
                Some(w) => Some(*w),
                None => None,
            },
        ),
{
    match v {
        Some(Json::Str(s)) => Some(s.clone()),
        _ => None,
    }
}

pub fn is_object_value(v: Option<&Json>) -> (r: bool)
    ensures
        r == is_object(
            match v {
                Some(w) => Some(*w),
                None => None,
            },
        ),
{
    match v {
        Some(Json::Object(_)) => true,
        _ => false,
    }
}

/// A string that is present and not empty.
pub open spec fn non_empty(s: Option<Seq<char>>) -> Option<Seq<char>> {
    match s {
        Some(t) => if t.len() > 0 {
            Some(t)
        } else {
            None
        },
        None => None,
    }
}

pub fn non_empty_exec(s: Option<String>) -> (r: Option<String>)
    ensures
        opt_string_view(r) == non_empty(opt_string_view(s)),
{
    match s {
        Some(t) => {
            let c = chars_of(t.as_str());
            if c.len() > 0 {
                Some(t)
            } else {
                None
            }
        },
        None => None,
    }
}

/// A string that denotes an integer, read as `str::parse::<i64>` reads it.
pub open spec fn int_of(s: Option<Seq<char>>) -> Option<i64> {
    match s {
        Some(t) => parse_i64_spec(t),
        None => None,
    }
}

pub fn int_of_exec(s: Option<String>) -> (r: Option<i64>)
    ensures
        r == int_of(opt_string_view(s)),
{
    match s {
        Some(t) => {
            let c = chars_of(t.as_str());
            parse_i64(c.as_slice())
        },
        None => None,
    }
}

/// What the library reads from a media file's sidecar. (The geographic
/// coordinates, which are floating-point numbers, are read beside it.)
#[derive(Debug)]
pub struct Sidecar {
    pub title: Option<String>,
    pub description: Option<String>,
    pub photo_taken_ts: Option<i64>,
    pub creation_ts: Option<i64>,
    pub image_views: Option<i64>,
    pub google_url: Option<String>,
    pub origin_type: Option<String>,
    pub device_type: Option<String>,
    pub people: Vec<String>,
}

/// The names of the tagged people: every `name` that is a non-empty string.
pub open spec fn people_names(items: Seq<Json>) -> Seq<Seq<char>>
    decreases items.len(),
{
    if items.len() == 0 {
        Seq::<Seq<char>>::empty()
    } else {
        people_names(items.drop_last()) + match non_empty(
            as_str(field(items.last(), "name"@)),
        ) {
            Some(n) => seq![n],
            None => Seq::<Seq<char>>::empty(),
        }
    }
}

pub open spec fn people_spec(v: Json) -> Seq<Seq<char>> {
    match field(v, "people"@) {
        Some(Json::Array(items)) => people_names(items@),
        _ => Seq::<Seq<char>>::empty(),
    }
}

/// Where the media was uploaded from, by the first member of `googlePhotosOrigin`
/// that is an object among `picasa`, `webUpload`, `mobileUpload`, `fromPartnerSharing`;
/// for a mobile upload, the `deviceType` string too.
pub open spec fn origin_spec(v: Json) -> (Option<Seq<char>>, Option<Seq<char>>) {
    let o = "googlePhotosOrigin"@;
    if is_object(field2(v, o, "picasa"@)) {
        (Some("picasa"@), None)
    } else if is_object(field2(v, o, "webUpload"@)) {
        (Some("webUpload"@), None)
    } else if is_object(field2(v, o, "mobileUpload"@)) {
        (
            Some("mobileUpload"@),
            match field2(v, o, "mobileUpload"@) {
                Some(m) => as_str(field(m, "deviceType"@)),
                None => None,
            },
        )
    } else if is_object(field2(v, o, "fromPartnerSharing"@)) {
        (Some("fromPartnerSharing"@), None)
    } else {
        (None, None)
    }
}

/// Whether `s` holds what a sidecar document `v` says.
pub open spec fn sidecar_matches(s: Sidecar, v: Json) -> bool {
    &&& opt_string_view(s.title) == non_empty(as_str(field(v, "title"@)))
    &&& opt_string_view(s.description) == non_empty(as_str(field(v, "description"@)))
    &&& s.photo_taken_ts == int_of(as_str(field2(v, "photoTakenTime"@, "timestamp"@)))
    &&& s.creation_ts == int_of(as_str(field2(v, "creationTime"@, "timestamp"@)))
    &&& s.image_views == int_of(as_str(field(v, "imageViews"@)))
    &&& opt_string_view(s.google_url) == non_empty(as_str(field(v, "url"@)))
    &&& opt_string_view(s.origin_type) == origin_spec(v).0
    &&& opt_string_view(s.device_type) == origin_spec(v).1
    &&& s.people@.map_values(|p: String| p@) == people_spec(v)
}

/// A sidecar keeps the document's own text members under their own names: its
/// title is the member `title`, its description the member `description`, its
/// Google Photos link the member `url`, each when it is a non-empty string and
/// absent otherwise; its dates are the integers written in
/// `photoTakenTime.timestamp` and `creationTime.timestamp`, and its view count
/// the integer written in `imageViews`.
pub proof fn law_sidecar_reads_named_members(s: Sidecar, v: Json)
    requires
        sidecar_matches(s, v),
    ensures
        match field(v, "title"@) {
            Some(Json::Str(t)) => t@.len() > 0 ==> opt_string_view(s.title) == Some(t@),
            _ => true,
        },
        match field(v, "description"@) {
            Some(Json::Str(d)) => d@.len() > 0 ==> opt_string_view(s.description) == Some(d@),
            _ => true,
        },
        match field(v, "url"@) {
            Some(Json::Str(u)) => u@.len() > 0 ==> opt_string_view(s.google_url) == Some(u@),
            _ => true,
        },
        !(field(v, "title"@) matches Some(Json::Str(t)) && t@.len() > 0) ==> s.title is None,
        !(field(v, "description"@) matches Some(Json::Str(d)) && d@.len() > 0)
            ==> s.description is None,
        !(field(v, "url"@) matches Some(Json::Str(u)) && u@.len() > 0) ==> s.google_url is None,
        match field2(v, "photoTakenTime"@, "timestamp"@) {
            Some(Json::Str(t)) => s.photo_taken_ts == parse_i64_spec(t@),
            _ => s.photo_taken_ts is None,
        },
        match field2(v, "creationTime"@, "timestamp"@) {
            Some(Json::Str(t)) => s.creation_ts == parse_i64_spec(t@),
            _ => s.creation_ts is None,
        },
        match field(v, "imageViews"@) {
            Some(Json::Str(t)) => s.image_views == parse_i64_spec(t@),
            _ => s.image_views is None,
        },
{
}

fn people_of(v: &Json) -> (r: Vec<String>)
    ensures
        r@.map_values(|p: String| p@) == people_spec(*v),
{
    let mut out: Vec<String> = Vec::new();
    match get_field(v, "people") {
        Some(Json::Array(items)) => {
            let mut i: usize = 0;
            while i < items.len()
                invariant
                    i <= items@.len(),
                    out@.map_values(|p: String| p@) == people_names(items@.take(i as int)),
                decreases items@.len() - i,
            {
                let name = non_empty_exec(str_of(get_field(&items[i], "name")));
                let ghost before = out@;
                match name {
                    Some(n) => {
                        out.push(n);
                    },
                    None => {},
                }
                proof {
                    let t = items@.take(i + 1);
                    assert(t.drop_last() =~= items@.take(i as int));
                    assert(t.last() == items@[i as int]);
                    assert(out@.map_values(|p: String| p@) =~= people_names(t));
                }
                i = i + 1;
            }
            proof {
                assert(items@.take(items@.len() as int) =~= items@);
            }
        },
        _ => {},
    }
    out
}

/// Reads what the library keeps from a media file's sidecar document.
pub fn sidecar_from_json(v: &Json) -> (s: Sidecar)
    ensures
        sidecar_matches(s, *v),
{
    let title = non_empty_exec(str_of(get_field(v, "title")));
    let description = non_empty_exec(str_of(get_field(v, "description")));
    let photo_taken_ts = int_of_exec(str_of(get_field2(v, "photoTakenTime", "timestamp")));
    let creation_ts = int_of_exec(str_of(get_field2(v, "creationTime", "timestamp")));
    let image_views = int_of_exec(str_of(get_field(v, "imageViews")));
    let google_url = non_empty_exec(str_of(get_field(v, "url")));
    let mut origin_type: Option<String> = None;
    let mut device_type: Option<String> = None;
    if is_object_value(get_field2(v, "googlePhotosOrigin", "picasa")) {
        origin_type = Some("picasa".to_owned());
    } else if is_object_value(get_field2(v, "googlePhotosOrigin", "webUpload")) {
        origin_type = Some("webUpload".to_owned());
    } else if is_object_value(get_field2(v, "googlePhotosOrigin", "mobileUpload")) {
        origin_type = Some("mobileUpload".to_owned());
        match get_field2(v, "googlePhotosOrigin", "mobileUpload") {
            Some(m) => {
                device_type = str_of(get_field(m, "deviceType"));
            },
            None => {},
        }
    } else if is_object_value(get_field2(v, "googlePhotosOrigin", "fromPartnerSharing")) {
        origin_type = Some("fromPartnerSharing".to_owned());
    }
    let people = people_of(v);
    Sidecar {
        title,
        description,
        photo_taken_ts,
        creation_ts,
        image_views,
        google_url,
        origin_type,
        device_type,
        people,
    }
}

/// What the library keeps from an album's `metadata.json`.
#[derive(Debug)]
pub struct AlbumMeta {
    pub title: Option<String>,
    pub description: Option<String>,
    pub access: Option<String>,
    pub date_ts: Option<i64>,
}

/// An album's title: the non-empty `title` of its metadata, else the name of
/// its folder; no title when both are empty.
pub open spec fn album_title_spec(v: Json, dir_name: Option<Seq<char>>) -> Option<Seq<char>> {
    match non_empty(as_str(field(v, "title"@))) {
        Some(t) => Some(t),
        None => match dir_name {
            Some(d) => non_empty(Some(d)),
            None => None,
        },
    }
}

/// Reads an album's metadata document; `dir_name` is the name of the album's folder.
pub fn album_meta_from_json(v: &Json, dir_name: Option<String>) -> (a: AlbumMeta)
    ensures
        opt_string_view(a.title) == album_title_spec(*v, opt_string_view(dir_name)),
        opt_string_view(a.description) == as_str(field(*v, "description"@)),
        opt_string_view(a.access) == as_str(field(*v, "access"@)),
        a.date_ts == int_of(as_str(field2(*v, "date"@, "timestamp"@))),
{
    let title = match non_empty_exec(str_of(get_field(v, "title"))) {
        Some(t) => Some(t),
        None => match dir_name {
            Some(d) => non_empty_exec(Some(d)),
            None => None,
        },
    };
    AlbumMeta {
        title,
        description: str_of(get_field(v, "description")),
        access: str_of(get_field(v, "access")),
        date_ts: int_of_exec(str_of(get_field2(v, "date", "timestamp"))),
    }
}

/// The title an album is listed under: its stored title when not empty, else
/// the last component of its folder path, else the folder path itself.
pub open spec fn album_display_title_spec(
    raw: Option<Seq<char>>,
    dir_path: Seq<char>,
    dir_file_name: Option<Seq<char>>,
) -> Seq<char> {
    match non_empty(raw) {
        Some(t) => t,
        None => match dir_file_name {
            Some(n) => n,
            None => dir_path,
        },
    }
}

/// The title an album is listed under, given the last component of its folder
/// path (`None` when the path has none).
pub fn album_display_title(raw: Option<String>, dir_path: String, dir_file_name: Option<String>) -> (r: String)
    ensures
        r@ == album_display_title_spec(
            opt_string_view(raw),
            dir_path@,
            opt_string_view(dir_file_name),
        ),
{
    match non_empty_exec(raw) {
        Some(t) => t,
        None => match dir_file_name {
            Some(n) => n,
            None => dir_path,
        },
    }
}

#[verifier::external_type_specification]
#[verifier::external_body]
pub struct ExJsonValue(serde_json::Value);

/// What `serde_json::from_str::<serde_json::Value>` makes of a text, in the
/// library's JSON model: `None` when the text is not one JSON document.
pub uninterp spec fn json_parse(text: Seq<char>) -> Option<Json>;

/// A `serde_json::Value` in the library's JSON model, variant by variant; a
/// number is kept as the text serde_json writes for it. Only
/// `parse_json_text` calls it, on the value it parsed.
#[verifier::external_body]
fn json_of_value(v: &serde_json::Value) -> Json {
    match v {
        serde_json::Value::Null => Json::Null,
        serde_json::Value::Bool(b) => Json::Bool(*b),
        serde_json::Value::Number(n) => Json::Number(n.to_string()),
        serde_json::Value::String(t) => Json::Str(t.clone()),
        serde_json::Value::Array(a) => Json::Array(a.iter().map(json_of_value).collect()),
        serde_json::Value::Object(m) => Json::Object(
            m.iter().map(|(k, x)| (k.clone(), json_of_value(x))).collect(),
        ),
    }
}

/// Parses a JSON text with `serde_json::from_str::<serde_json::Value>`.
/// Trusted: the result is `json_parse` of the text.
#[verifier::external_body]
fn parse_json_text(text: &str) -> (r: Option<Json>)
    ensures
        r == json_parse(text@),
{
    serde_json::from_str::<serde_json::Value>(text).ok().map(|v| json_of_value(&v))
}

/// Reads a sidecar from its text: `None` when the text is not JSON; otherwise
/// what the library keeps of it, with the parsed document (its coordinates are
/// read from it apart).
pub fn sidecar_from_text(text: &str) -> (r: Option<(Sidecar, Json)>)
    ensures
        match json_parse(text@) {
            None => r is None,
            Some(v) => r matches Some((s, j)) && j == v && sidecar_matches(s, v),
        },
{
    match parse_json_text(text) {
        None => None,
        Some(v) => {
            let s = sidecar_from_json(&v);
            Some((s, v))
        },
    }
}

/// Reads an album's `metadata.json` from its text: `None` when the text is not
/// JSON; `dir_name` is the name of the album's folder.
pub fn album_meta_from_text(text: &str, dir_name: Option<String>) -> (r: Option<AlbumMeta>)
    ensures
        match json_parse(text@) {
            None => r is None,
            Some(v) => r matches Some(a) && opt_string_view(a.title) == album_title_spec(
                v,
                opt_string_view(dir_name),
            ) && opt_string_view(a.description) == as_str(field(v, "description"@))
                && opt_string_view(a.access) == as_str(field(v, "access"@)) && a.date_ts == int_of(
                as_str(field2(v, "date"@, "timestamp"@)),
            ),
        },
{
    match parse_json_text(text) {
        None => None,
        Some(v) => Some(album_meta_from_json(&v, dir_name)),
    }
}

} // verus!
