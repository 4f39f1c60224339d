# Photo Manager — verified core

Photo Manager browses and cleans up a Google Photos Takeout archive offline:
it indexes the media files and their `.json` sidecars into SQLite, searches
them, and finds and removes duplicates.

This crate is its core, written in Verus. The rules that decide what the
application does are executable functions with contracts proved by Verus;
what reads the clock, takes locks, walks folders, reads EXIF data or decodes
images stands around them, in `app/` or behind trusted wrappers whose
contracts say only what the outside code documents:

- `text` — trimming, decimal parsing and printing as std does them;
- `paths` — portable, root-relative stored paths, and their resolution;
- `containment` — whether a requested path lies inside a folder, `..` resolved;
- `media` — media types, content types, thumbnail routes, JPEG scaling, row packing;
- `http` — the local file protocol: percent decoding, `Range` headers;
- `json` — sidecar and album metadata texts, parsed with serde_json, and what is read from them;
- `query` — the SQL of a media search and its placeholder values;
- `duplicates` — grouping of duplicate rows, detection groups;
- `cleanup` — which copy of a duplicate group is kept and what is removed;
- `hashing` — MD5 content hashes in hexadecimal, cache and thumbnail names;
- `exif_data`, `takeout`, `scan`, `models` — EXIF fields, timestamp fixing,
  scan decisions and progress, and the records shown to the user.

`app/` is the Tauri application around it: file system, SQLite, image
decoding, the trash, and the web front end's commands.
