//! Portable library paths. Media paths are stored relative to the library root,
//! with forward slashes, so that the database survives a move of the library
//! or a change of drive letter; they are resolved again against the root when read.
use vstd::prelude::*;
use crate::text::{chars_of, chars_equal, extend_str, has_prefix, starts_with_chars, string_from_chars};

verus! {

pub open spec fn forward_char(c: char) -> char {
    if c == '\\' {
        '/'
    } else {
        c
    }
}

/// `s` with every backslash replaced by a forward slash.
pub open spec fn forward_slashes(s: Seq<char>) -> Seq<char> {
    s.map_values(|c: char| forward_char(c))
}

pub open spec fn no_backslash(s: Seq<char>) -> bool {
    forall|k: int| 0 <= k < s.len() ==> #[trigger] s[k] != '\\'
}

pub fn forward_slashes_chars(s: &[char]) -> (r: Vec<char>)
    ensures
        r@ == forward_slashes(s@),
{
    let mut r: Vec<char> = Vec::new();
    let mut i: usize = 0;
    while i < s.len()
        invariant
            i <= s@.len(),
            r@ == forward_slashes(s@.subrange(0, i as int)),
        decreases s@.len() - i,
    {
        let c = s[i];
        let d = if c == '\\' {
            '/'
        } else {
            c
        };
        r.push(d);
        i = i + 1;
        assert(r@ =~= forward_slashes(s@.subrange(0, i as int)));
    }
    assert(s@.subrange(0, s@.len() as int) =~= s@);
    r
}

/// A path with its separators written as forward slashes, the form in which
/// relative paths are stored.
pub fn portable_path(s: &str) -> (r: String)
    ensures
        r@ == forward_slashes(s@),
{
    let c = chars_of(s);
    let f = forward_slashes_chars(c.as_slice());
    string_from_chars(f.as_slice())
}

/// The prefix that a path under `root` starts with: the root (in forward-slash form)
/// followed by one separator.
pub open spec fn root_prefix(root: Seq<char>) -> Seq<char> {
    let r = forward_slashes(root);
    if r.len() > 0 && r.last() == '/' {
        r
    } else {
        r.push('/')
    }
}

/// The stored form of `path` for a library rooted at `root`: forward slashes,
/// and relative to the root when the path lies under it.
pub open spec fn relative_spec(root: Seq<char>, path: Seq<char>) -> Seq<char> {
    let r = forward_slashes(root);
    let p = forward_slashes(path);
    let pre = root_prefix(root);
    if r.len() == 0 {
        p
    } else if p == r {
        Seq::<char>::empty()
    } else if has_prefix(p, pre) {
        p.subrange(pre.len() as int, p.len() as int)
    } else {
        p
    }
}

/// Where a stored path lies on disk for a library rooted at `root`.
pub open spec fn absolute_spec(root: Seq<char>, rel: Seq<char>) -> Seq<char> {
    if root.len() == 0 {
        rel
    } else if root.last() == '/' || root.last() == '\\' {
        root + rel
    } else {
        root.push('/') + rel
    }
}

/// The stored (portable, root-relative) form of `path`.
pub fn to_relative(root: &str, path: &str) -> (r: String)
    ensures
        r@ == relative_spec(root@, path@),
{
    let rc = chars_of(root);
    let pc = chars_of(path);
    let r = forward_slashes_chars(rc.as_slice());
    let p = forward_slashes_chars(pc.as_slice());
    if r.len() == 0 {
        return string_from_chars(p.as_slice());
    }
    if chars_equal(p.as_slice(), r.as_slice()) {
        let e: Vec<char> = Vec::new();
        proof {
            assert(e@ =~= Seq::<char>::empty());
        }
        return string_from_chars(e.as_slice());
    }
    let mut pre = r.clone();
    if !(r[r.len() - 1] == '/') {
        pre.push('/');
    }
    assert(pre@ == root_prefix(root@));
    if starts_with_chars(p.as_slice(), pre.as_slice()) {
        let mut out: Vec<char> = Vec::new();
        let mut i: usize = pre.len();
        while i < p.len()
            invariant
                pre@.len() <= i <= p@.len(),
                out@ == p@.subrange(pre@.len() as int, i as int),
            decreases p@.len() - i,
        {
            out.push(p[i]);
            i = i + 1;
            assert(out@ =~= p@.subrange(pre@.len() as int, i as int));
        }
        string_from_chars(out.as_slice())
    } else {
        string_from_chars(p.as_slice())
    }
}

/// The on-disk path of a stored path `rel` for a library rooted at `root`.
pub fn to_absolute(root: &str, rel: &str) -> (r: String)
    ensures
        r@ == absolute_spec(root@, rel@),
{
    let mut v = chars_of(root);
    let n = v.len();
    if n > 0 && !(v[n - 1] == '/' || v[n - 1] == '\\') {
        v.push('/');
    }
    extend_str(&mut v, rel);
    string_from_chars(v.as_slice())
}

/// A thumbnail's path relative to the data folder, in stored form: the folder
/// `thumbs`, the separator the platform joined it with (`/` or `\`), and the
/// thumbnail's file name `<hash>.jpg`, with forward slashes, is
/// `thumbs/<hash>.jpg` on every platform, for a hash that holds no backslash.
pub proof fn law_thumbnail_path_portable(hash: Seq<char>, sep: char)
    requires
        sep == '/' || sep == '\\',
        no_backslash(hash),
    ensures
        forward_slashes("thumbs"@ + seq![sep] + hash + ".jpg"@) == "thumbs/"@ + hash + ".jpg"@,
{
    reveal_strlit("thumbs");
    reveal_strlit("thumbs/");
    reveal_strlit(".jpg");
    let a = "thumbs"@ + seq![sep] + hash + ".jpg"@;
    let b = "thumbs/"@ + hash + ".jpg"@;
    assert(a.len() == b.len());
    assert forall|k: int| 0 <= k < a.len() implies #[trigger] forward_slashes(a)[k] == b[k] by {
        if k < 6 {
        } else if k == 6 {
        } else if k < 7 + hash.len() {
            assert(a[k] == hash[k - 7]);
            assert(b[k] == hash[k - 7]);
        } else {
            assert(a[k] == ".jpg"@[k - 7 - hash.len()]);
            assert(b[k] == ".jpg"@[k - 7 - hash.len()]);
        }
    }
    assert(forward_slashes(a) =~= b);
}

proof fn lemma_forward_slashes_identity(s: Seq<char>)
    requires
        no_backslash(s),
    ensures
        forward_slashes(s) == s,
{
    assert(forward_slashes(s) =~= s);
}

/// A stored path read back: for a library root and a stored path that are both
/// written with forward slashes, resolving the stored path against the root and
/// storing the result again gives the stored path back.
pub proof fn law_relative_of_absolute(root: Seq<char>, rel: Seq<char>)
    requires
        no_backslash(root),
        no_backslash(rel),
    ensures
        relative_spec(root, absolute_spec(root, rel)) == rel,
{
    lemma_forward_slashes_identity(root);
    if root.len() == 0 {
        lemma_forward_slashes_identity(rel);
    } else {
        let abs = absolute_spec(root, rel);
        assert(no_backslash(abs)) by {
            if root.last() == '/' {
                assert(abs =~= root + rel);
                assert forall|k: int| 0 <= k < abs.len() implies #[trigger] abs[k] != '\\' by {
                    if k < root.len() {
                        assert(abs[k] == root[k]);
                    } else {
                        assert(abs[k] == rel[k - root.len()]);
                    }
                }
            } else {
                assert(abs =~= root.push('/') + rel);
                assert forall|k: int| 0 <= k < abs.len() implies #[trigger] abs[k] != '\\' by {
                    if k < root.len() {
                        assert(abs[k] == root[k]);
                    } else if k == root.len() {
                        assert(abs[k] == '/');
                    } else {
                        assert(abs[k] == rel[k - root.len() - 1]);
                    }
                }
            }
        }
        lemma_forward_slashes_identity(abs);
        let pre = root_prefix(root);
        assert(pre == if root.last() == '/' { root } else { root.push('/') });
        assert(abs =~= pre + rel);
        assert(abs.subrange(0, pre.len() as int) =~= pre);
        assert(abs.subrange(pre.len() as int, abs.len() as int) =~= rel);
        if abs == root {
            assert(abs.len() == root.len());
            assert(pre.len() == root.len());
            assert(rel.len() == 0);
            assert(rel =~= Seq::<char>::empty());
        }
    }
}

} // verus!
