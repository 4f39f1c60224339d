//! Content hashes: MD5 of media files (duplicate detection, thumbnail names)
//! and of viewer cache keys, written as lower-case hexadecimal.
use vstd::prelude::*;
use md5::Digest;
use vstd::utf8::encode_utf8;
use crate::text::{chars_of, extend_str, string_from_chars};

verus! {

/// An incremental MD5 computation: the `md5::Md5` hasher of the `md-5` crate.
/// `md5::Md5` is an alias of a generic digest wrapper whose bounds Verus cannot
/// declare, so the hasher is held in the field of this opaque struct.
#[verifier::external_body]
pub struct Md5Hasher {
    inner: md5::Md5,
}

/// The bytes fed to an MD5 hasher so far.
pub uninterp spec fn md5_input(h: Md5Hasher) -> Seq<u8>;

/// The MD5 digest of a byte string, as the `md-5` crate computes it.
pub uninterp spec fn md5_digest(data: Seq<u8>) -> Seq<u8>;

impl Md5Hasher {
    /// `md5::Md5::new()`. Trusted: a fresh hasher has been fed nothing.
    #[verifier::external_body]
    pub(crate) fn new() -> (h: Md5Hasher)
        ensures
            md5_input(h) == Seq::<u8>::empty(),
    {
        Md5Hasher { inner: md5::Md5::new() }
    }

    /// `Digest::update`. Trusted: the hasher has then been fed `data` after
    /// what it had been fed before.
    #[verifier::external_body]
    pub(crate) fn update(&mut self, data: &[u8])
        ensures
            md5_input(*final(self)) == md5_input(*old(self)) + data@,
    {
        self.inner.update(data);
    }

    /// `Digest::finalize`. Trusted: the result is the 16-byte MD5 digest of
    /// everything the hasher was fed.
    #[verifier::external_body]
    pub(crate) fn finalize(self) -> (d: Vec<u8>)
        ensures
            d@ == md5_digest(md5_input(self)),
            d@.len() == 16,
    {
        self.inner.finalize().to_vec()
    }
}

pub open spec fn hex_digit(v: nat) -> char
    recommends
        v < 16,
{
    if v < 10 {
        (v + 48) as char
    } else {
        (v + 87) as char
    }
}

/// Lower-case hexadecimal of bytes, two digits each, as `format!("{:x}", digest)` writes it.
pub open spec fn hex_chars(b: Seq<u8>) -> Seq<char>
    decreases b.len(),
{
    if b.len() == 0 {
        Seq::<char>::empty()
    } else {
        hex_chars(b.drop_last()) + seq![
            hex_digit((b.last() / 16) as nat),
            hex_digit((b.last() % 16) as nat),
        ]
    }
}

fn hex_digit_exec(v: u8) -> (c: char)
    requires
        v < 16,
    ensures
        c == hex_digit(v as nat),
{
    if v < 10 {
        (v + 48) as char
    } else {
        (v + 87) as char
    }
}

/// Writes bytes as lower-case hexadecimal.
pub fn hex_lower(b: &[u8]) -> (r: String)
    ensures
        r@ == hex_chars(b@),
        r@.len() == 2 * b@.len(),
{
    let mut v: Vec<char> = Vec::new();
    let mut i: usize = 0;
    while i < b.len()
        invariant
            i <= b@.len(),
            v@ == hex_chars(b@.take(i as int)),
            v@.len() == 2 * i,
        decreases b@.len() - i,
    {
        let x = b[i];
        v.push(hex_digit_exec(x / 16));
        v.push(hex_digit_exec(x % 16));
        proof {
            let t = b@.take(i + 1);
            assert(t.drop_last() =~= b@.take(i as int));
            assert(t.last() == x);
        }
        i = i + 1;
        assert(v@ =~= hex_chars(b@.take(i as int)));
    }
    proof {
        assert(b@.take(b@.len() as int) =~= b@);
    }
    string_from_chars(v.as_slice())
}

/// The MD5 of bytes in lower-case hexadecimal.
pub fn md5_hex(data: &[u8]) -> (r: String)
    ensures
        r@ == hex_chars(md5_digest(data@)),
        r@.len() == 32,
{
    let mut h = Md5Hasher::new();
    h.update(data);
    let d = h.finalize();
    proof {
        assert(Seq::<u8>::empty() + data@ =~= data@);
    }
    hex_lower(d.as_slice())
}

/// The content hash of a file read in chunks: the MD5 of all the chunks, in
/// the order they were fed.
pub struct ContentHash {
    hasher: Md5Hasher,
}

impl ContentHash {
    /// The bytes fed so far.
    pub closed spec fn fed(&self) -> Seq<u8> {
        md5_input(self.hasher)
    }

    /// A hash that has been fed nothing.
    pub fn new() -> (h: ContentHash)
        ensures
            h.fed() == Seq::<u8>::empty(),
    {
        ContentHash { hasher: Md5Hasher::new() }
    }

    /// Feeds the next chunk of the file.
    pub fn feed(&mut self, chunk: &[u8])
        ensures
            final(self).fed() == old(self).fed() + chunk@,
    {
        self.hasher.update(chunk);
    }

    /// The MD5 of everything fed, in lower-case hexadecimal.
    pub fn finish_hex(self) -> (r: String)
        ensures
            r@ == hex_chars(md5_digest(self.fed())),
            r@.len() == 32,
    {
        let d = self.hasher.finalize();
        hex_lower(d.as_slice())
    }
}

/// The file name of the JPEG that caches the decoded image of a HEIC file:
/// the MD5 of the file's path, then `.jpg`.
pub fn heic_cache_file_name(path: &str) -> (r: String)
    ensures
        r@ == hex_chars(md5_digest(encode_utf8(path@))) + ".jpg"@,
{
    let key = md5_hex(path.as_bytes());
    let mut v = chars_of(key.as_str());
    extend_str(&mut v, ".jpg");
    string_from_chars(v.as_slice())
}

/// The file name of the thumbnail of a file with content hash `hash`.
pub fn thumbnail_file_name(hash: &str) -> (r: String)
    ensures
        r@ == hash@ + ".jpg"@,
{
    let mut v = chars_of(hash);
    extend_str(&mut v, ".jpg");
    string_from_chars(v.as_slice())
}

} // verus!
