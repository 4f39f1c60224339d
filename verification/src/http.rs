//! The local file protocol that serves thumbnails and media to the viewer:
//! decoding of request paths, HTTP `Range` requests, and content types.
use vstd::prelude::*;
use vstd::utf8::{decode_utf8, encode_utf8, valid_utf8};
use crate::text::{
    chars_of, dec_chars, dec_u64, extend_chars, has_prefix, parse_u64, parse_u64_spec, starts_with_chars, string_from_chars,
    trim, trim_chars,
};

verus! {

/// Whether `i` is the position of the first `c` in `s`.
pub open spec fn is_first_at(s: Seq<char>, c: char, i: int) -> bool {
    0 <= i < s.len() && s[i] == c && forall|k: int| 0 <= k < i ==> #[trigger] s[k] != c
}

/// The position of the first `c` in `s`, if any.
pub open spec fn first_index(s: Seq<char>, c: char) -> Option<int> {
    if exists|i: int| is_first_at(s, c, i) {
        Some(choose|i: int| is_first_at(s, c, i))
    } else {
        None
    }
}

pub fn find_char(s: &[char], c: char) -> (r: Option<usize>)
    ensures
        match r {
            Some(i) => first_index(s@, c) == Some(i as int),
            None => first_index(s@, c) is None,
        },
{
    let mut i: usize = 0;
    while i < s.len()
        invariant
            i <= s@.len(),
            forall|k: int| 0 <= k < i ==> #[trigger] s@[k] != c,
        decreases s@.len() - i,
    {
        if s[i] == c {
            proof {
                assert(is_first_at(s@, c, i as int));
                let j = choose|j: int| is_first_at(s@, c, j);
                assert(j == i) by {
                    if j < i {
                        assert(s@[j] != c);
                    } else if j > i {
                        assert(s@[i as int] != c);
                    }
                }
            }
            return Some(i);
        }
        i = i + 1;
    }
    proof {
        assert forall|j: int| !is_first_at(s@, c, j) by {
            if 0 <= j < s@.len() {
                assert(s@[j] != c);
            }
        }
    }
    None
}

pub open spec fn bytes_prefix() -> Seq<char> {
    seq!['b', 'y', 't', 'e', 's', '=']
}

/// The byte range that a `Range` header asks of a file of `total` bytes, as
/// `(first, last)`: the header is `bytes=first-last` or `bytes=first-`, with
/// white space allowed around each number; an open or too large `last` means
/// the last byte of the file. Anything else, or `first > last`, asks nothing.
pub open spec fn range_spec(header: Seq<char>, total: u64) -> Option<(u64, u64)> {
    let pre = bytes_prefix();
    if !has_prefix(header, pre) {
        None
    } else {
        let rest = header.subrange(pre.len() as int, header.len() as int);
        match first_index(rest, '-') {
            None => None,
            Some(d) => {
                let a = rest.subrange(0, d);
                let b = rest.subrange(d + 1, rest.len() as int);
                let last: u64 = if total == 0 {
                    0
                } else {
                    (total - 1) as u64
                };
                match parse_u64_spec(trim(a)) {
                    None => None,
                    Some(start) => {
                        let eb = trim(b);
                        let end: Option<u64> = if eb.len() == 0 {
                            Some(last)
                        } else {
                            match parse_u64_spec(eb) {
                                None => None,
                                Some(e) => Some(
                                    if e < last {
                                        e
                                    } else {
                                        last
                                    },
                                ),
                            }
                        };
                        match end {
                            None => None,
                            Some(e) => if start <= e {
                                Some((start, e))
                            } else {
                                None
                            },
                        }
                    },
                }
            },
        }
    }
}

/// Parses an HTTP `Range` header for a file of `total` bytes.
pub fn parse_range(range_str: &str, total: u64) -> (r: Option<(u64, u64)>)
    ensures
        r == range_spec(range_str@, total),
        r matches Some((s, e)) ==> s <= e && (total > 0 ==> e < total),
{
    let h = chars_of(range_str);
    let pre = vec!['b', 'y', 't', 'e', 's', '='];
    assert(pre@ =~= bytes_prefix());
    if !starts_with_chars(h.as_slice(), pre.as_slice()) {
        return None;
    }
    let mut rest: Vec<char> = Vec::new();
    let mut i: usize = 6;
    while i < h.len()
        invariant
            6 <= i <= h@.len(),
            rest@ == h@.subrange(6, i as int),
        decreases h@.len() - i,
    {
        rest.push(h[i]);
        i = i + 1;
        assert(rest@ =~= h@.subrange(6, i as int));
    }
    let d = match find_char(rest.as_slice(), '-') {
        None => {
            return None;
        },
        Some(d) => d,
    };
    let mut a: Vec<char> = Vec::new();
    let mut b: Vec<char> = Vec::new();
    let mut k: usize = 0;
    while k < rest.len()
        invariant
            d < rest@.len(),
            k <= rest@.len(),
            a@ == rest@.subrange(0, if k < d {
                k as int
            } else {
                d as int
            }),
            b@ == if k <= d + 1 {
                Seq::<char>::empty()
            } else {
                rest@.subrange(d + 1, k as int)
            },
        decreases rest@.len() - k,
    {
        if k < d {
            a.push(rest[k]);
        } else if k > d {
            b.push(rest[k]);
        }
        k = k + 1;
        assert(a@ =~= rest@.subrange(0, if k < d {
            k as int
        } else {
            d as int
        }));
        assert(b@ =~= if k <= d + 1 {
            Seq::<char>::empty()
        } else {
            rest@.subrange(d + 1, k as int)
        });
    }
    proof {
        assert(b@ =~= rest@.subrange(d + 1, rest@.len() as int));
    }
    let last: u64 = if total == 0 {
        0
    } else {
        total - 1
    };
    let ta = trim_chars(a.as_slice());
    let start = match parse_u64(ta.as_slice()) {
        None => {
            return None;
        },
        Some(s) => s,
    };
    let tb = trim_chars(b.as_slice());
    let end = if tb.len() == 0 {
        last
    } else {
        match parse_u64(tb.as_slice()) {
            None => {
                return None;
            },
            Some(e) => if e < last {
                e
            } else {
                last
            },
        }
    };
    if start <= end {
        Some((start, end))
    } else {
        None
    }
}

/// The value of a `Content-Range` header for bytes `start..=end` of `total`:
/// `bytes start-end/total`.
pub open spec fn content_range_spec(start: u64, end: u64, total: u64) -> Seq<char> {
    bytes_prefix().drop_last().push(' ') + dec_chars(start as nat) + seq!['-'] + dec_chars(
        end as nat,
    ) + seq!['/'] + dec_chars(total as nat)
}

/// The `Content-Range` header value for a partial response.
pub fn content_range_value(start: u64, end: u64, total: u64) -> (r: String)
    ensures
        r@ == content_range_spec(start, end, total),
{
    let mut v: Vec<char> = vec!['b', 'y', 't', 'e', 's', ' '];
    assert(v@ =~= bytes_prefix().drop_last().push(' '));
    let s = dec_u64(start);
    extend_chars(&mut v, s.as_slice());
    v.push('-');
    let e = dec_u64(end);
    extend_chars(&mut v, e.as_slice());
    v.push('/');
    let t = dec_u64(total);
    extend_chars(&mut v, t.as_slice());
    proof {
        assert(v@ =~= content_range_spec(start, end, total));
    }
    string_from_chars(v.as_slice())
}

/// The number of bytes in the range `start..=end`.
pub fn range_length(start: u64, end: u64) -> (n: u64)
    requires
        start <= end < u64::MAX,
    ensures
        n == end - start + 1,
{
    end - start + 1
}

/// The value of a hexadecimal digit.
pub open spec fn hex_val(b: u8) -> Option<nat> {
    if 48 <= b <= 57 {
        Some((b - 48) as nat)
    } else if 97 <= b <= 102 {
        Some((b - 87) as nat)
    } else if 65 <= b <= 70 {
        Some((b - 55) as nat)
    } else {
        None
    }
}

fn hex_val_exec(b: u8) -> (r: Option<u8>)
    ensures
        match r {
            Some(v) => hex_val(b) == Some(v as nat),
            None => hex_val(b) is None,
        },
{
    if 48 <= b && b <= 57 {
        Some(b - 48)
    } else if 97 <= b && b <= 102 {
        Some(b - 87)
    } else if 65 <= b && b <= 70 {
        Some(b - 55)
    } else {
        None
    }
}

/// The byte that the two bytes after a `%` stand for, as `u8::from_str_radix(_, 16)`
/// reads them: two hexadecimal digits, or a `+` and one digit.
pub open spec fn escape_value(h1: u8, h2: u8) -> Option<u8> {
    if h1 == 43 {
        match hex_val(h2) {
            Some(v) => Some(v as u8),
            None => None,
        }
    } else {
        match (hex_val(h1), hex_val(h2)) {
            (Some(a), Some(b)) => Some((a * 16 + b) as u8),
            _ => None,
        }
    }
}

fn escape_value_exec(h1: u8, h2: u8) -> (r: Option<u8>)
    ensures
        r == escape_value(h1, h2),
{
    if h1 == 43 {
        match hex_val_exec(h2) {
            Some(v) => Some(v),
            None => None,
        }
    } else {
        match (hex_val_exec(h1), hex_val_exec(h2)) {
            (Some(a), Some(b)) => Some(a * 16 + b),
            _ => None,
        }
    }
}

/// `b` with its percent escapes replaced: a `%` that two bytes follow and that,
/// with them, forms a valid escape becomes the byte it stands for; every other
/// byte is kept.
pub open spec fn percent_decoded(b: Seq<u8>) -> Seq<u8>
    decreases b.len(),
{
    if b.len() == 0 {
        Seq::<u8>::empty()
    } else if b[0] == 37 && b.len() > 2 && escape_value(b[1], b[2]) is Some {
        seq![escape_value(b[1], b[2]).unwrap()] + percent_decoded(b.subrange(3, b.len() as int))
    } else {
        seq![b[0]] + percent_decoded(b.drop_first())
    }
}

/// Replaces the percent escapes of a byte string.
pub fn percent_decode_bytes(b: &[u8]) -> (r: Vec<u8>)
    ensures
        r@ == percent_decoded(b@),
{
    let n = b.len();
    let mut out: Vec<u8> = Vec::new();
    let mut i: usize = 0;
    assert(b@.subrange(0, n as int) =~= b@);
    assert(out@ + percent_decoded(b@) =~= percent_decoded(b@));
    while i < n
        invariant
            n == b@.len(),
            i <= n,
            percent_decoded(b@) == out@ + percent_decoded(b@.subrange(i as int, n as int)),
        decreases n - i,
    {
        let ghost t = b@.subrange(i as int, n as int);
        if b[i] == 37 && n - i > 2 {
            let v = escape_value_exec(b[i + 1], b[i + 2]);
            if let Some(x) = v {
                proof {
                    assert(t[0] == b@[i as int] && t[1] == b@[i + 1] && t[2] == b@[i + 2]);
                    assert(t.subrange(3, t.len() as int) =~= b@.subrange(i + 3, n as int));
                }
                out.push(x);
                i = i + 3;
                proof {
                    assert(out@ + percent_decoded(b@.subrange(i as int, n as int)) =~= out@.drop_last()
                        + (seq![x] + percent_decoded(b@.subrange(i as int, n as int))));
                }
                continue;
            }
        }
        proof {
            assert(t[0] == b@[i as int]);
            if t.len() > 2 {
                assert(t[1] == b@[i + 1] && t[2] == b@[i + 2]);
            }
            assert(t.drop_first() =~= b@.subrange(i + 1, n as int));
        }
        out.push(b[i]);
        i = i + 1;
        proof {
            assert(out@ + percent_decoded(b@.subrange(i as int, n as int)) =~= out@.drop_last() + (
            seq![b@[i - 1]] + percent_decoded(b@.subrange(i as int, n as int))));
        }
    }
    proof {
        assert(b@.subrange(n as int, n as int) =~= Seq::<u8>::empty());
        assert(out@ + Seq::<u8>::empty() =~= out@);
    }
    out
}

/// What std's `String::from_utf8_lossy` gives for a byte string: its UTF-8 text,
/// with each invalid sequence replaced by U+FFFD.
pub uninterp spec fn utf8_lossy(b: Seq<u8>) -> Seq<char>;

/// Decodes bytes as text with std's `String::from_utf8_lossy`.
/// Trusted: the result is `utf8_lossy` of the bytes, and, as std documents, valid
/// UTF-8 comes back as the text it encodes.
#[verifier::external_body]
pub(crate) fn from_utf8_lossy(b: &[u8]) -> (r: String)
    ensures
        r@ == utf8_lossy(b@),
        valid_utf8(b@) ==> r@ == decode_utf8(b@),
{
    String::from_utf8_lossy(b).into_owned()
}

/// Whether no `%` in `b` starts a valid escape: each `%` that two bytes
/// follow is followed by two bytes that stand for no byte.
pub open spec fn no_valid_escape(b: Seq<u8>) -> bool {
    forall|k: int|
        0 <= k && k + 2 < b.len() && #[trigger] b[k] == 37 ==> escape_value(b[k + 1], b[k + 2]) is None
}

/// Decodes the percent escapes of a request path. When the decoded bytes are
/// valid UTF-8 the result is the text they encode; a path in which no `%`
/// starts a valid escape (such as `100%` or `%zz`) comes back unchanged.
pub fn percent_decode(s: &str) -> (r: String)
    ensures
        r@ == utf8_lossy(percent_decoded(encode_utf8(s@))),
        valid_utf8(percent_decoded(encode_utf8(s@))) ==> r@ == decode_utf8(
            percent_decoded(encode_utf8(s@)),
        ),
        no_valid_escape(encode_utf8(s@)) ==> r@ == s@,
{
    let bytes = s.as_bytes();
    let out = percent_decode_bytes(bytes);
    proof {
        if no_valid_escape(encode_utf8(s@)) {
            law_bytes_without_escapes_unchanged(encode_utf8(s@));
            vstd::utf8::encode_utf8_valid_utf8(s@);
            vstd::utf8::encode_utf8_decode_utf8(s@);
        }
    }
    from_utf8_lossy(out.as_slice())
}

/// Bytes in which no `%` starts a valid escape decode to themselves.
pub proof fn law_bytes_without_escapes_unchanged(b: Seq<u8>)
    requires
        no_valid_escape(b),
    ensures
        percent_decoded(b) == b,
    decreases b.len(),
{
    if b.len() > 0 {
        let t = b.drop_first();
        assert forall|k: int| 0 <= k && k + 2 < t.len() && #[trigger] t[k] == 37 implies escape_value(
            t[k + 1],
            t[k + 2],
        ) is None by {
            assert(t[k] == b[k + 1] && t[k + 1] == b[k + 2] && t[k + 2] == b[k + 3]);
        }
        law_bytes_without_escapes_unchanged(t);
        if b[0] == 37 && b.len() > 2 {
            assert(escape_value(b[1], b[2]) is None);
        }
        assert(seq![b[0]] + t =~= b);
    }
}


} // verus!
