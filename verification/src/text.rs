//! Character-level text helpers shared by the parsers of the library:
//! whitespace trimming, decimal parsing and formatting, prefix and suffix tests.
use vstd::prelude::*;

verus! {

/// The characters of `s`, in order.
pub fn chars_of(s: &str) -> (r: Vec<char>)
    ensures
        r@ == s@,
{
    let mut v: Vec<char> = Vec::new();
    for c in it: s.chars()
        invariant
            v@ == it.seq().take(it.index() as int),
            it.seq() == s@,
    {
        v.push(c);
    }
    v
}

/// Appends a character to a `String` (std's `String::push`).
/// Trusted: the string then ends with `c`, after what it held before.
#[verifier::external_body]
fn push_char(s: &mut String, c: char)
    ensures
        final(s)@ == old(s)@.push(c),
{
    s.push(c);
}

/// A `String` of the given characters, in order.
pub(crate) fn string_from_chars(v: &[char]) -> (r: String)
    ensures
        r@ == v@,
{
    let mut r = String::new();
    let mut i: usize = 0;
    while i < v.len()
        invariant
            i <= v.len(),
            r@ == v@.take(i as int),
        decreases v.len() - i,
    {
        push_char(&mut r, v[i]);
        assert(v@.take(i as int).push(v[i as int]) =~= v@.take(i + 1));
        i += 1;
    }
    assert(v@.take(v.len() as int) =~= v@);
    r
}

/// What std's `str::to_lowercase` returns for a string: the Unicode lowercase
/// mapping of every character, which may change the length of the text.
pub uninterp spec fn lowercase_of(s: Seq<char>) -> Seq<char>;

/// The ASCII lowercase of a character: `A`–`Z` become `a`–`z`, every other
/// character stays.
pub open spec fn ascii_lower(c: char) -> char {
    if 'A' <= c && c <= 'Z' {
        ((c as u32) + 32) as char
    } else {
        c
    }
}

/// Every character of `s` in ASCII lowercase.
pub open spec fn ascii_lowercase(s: Seq<char>) -> Seq<char> {
    s.map_values(|c: char| ascii_lower(c))
}

pub open spec fn all_ascii(s: Seq<char>) -> bool {
    forall|k: int| 0 <= k < s.len() ==> (#[trigger] s[k] as u32) < 128
}

/// Lowercases a string with std's `str::to_lowercase`.
/// Trusted: the result is `lowercase_of` of the characters of `s`; for text
/// that is all ASCII, whose Unicode lowercase mapping is the ASCII one, it is
/// each character in ASCII lowercase.
#[verifier::external_body]
pub(crate) fn to_lowercase(s: &str) -> (r: String)
    ensures
        r@ == lowercase_of(s@),
        all_ascii(s@) ==> r@ == ascii_lowercase(s@),
{
    s.to_lowercase()
}

/// Unicode `White_Space`, the set of characters that std's `char::is_whitespace`
/// accepts and that `str::trim` removes.
pub open spec fn is_space(c: char) -> bool {
    ||| ('\u{9}' <= c && c <= '\u{d}')
    ||| c == ' '
    ||| c == '\u{85}'
    ||| c == '\u{a0}'
    ||| c == '\u{1680}'
    ||| ('\u{2000}' <= c && c <= '\u{200a}')
    ||| c == '\u{2028}'
    ||| c == '\u{2029}'
    ||| c == '\u{202f}'
    ||| c == '\u{205f}'
    ||| c == '\u{3000}'
}

pub fn is_space_exec(c: char) -> (b: bool)
    ensures
        b == is_space(c),
{
    ('\u{9}' <= c && c <= '\u{d}') || c == ' ' || c == '\u{85}' || c == '\u{a0}' || c
        == '\u{1680}' || ('\u{2000}' <= c && c <= '\u{200a}') || c == '\u{2028}' || c
        == '\u{2029}' || c == '\u{202f}' || c == '\u{205f}' || c == '\u{3000}'
}

/// `s` without its leading white space.
pub open spec fn trim_start(s: Seq<char>) -> Seq<char>
    decreases s.len(),
{
    if s.len() > 0 && is_space(s[0]) {
        trim_start(s.drop_first())
    } else {
        s
    }
}

/// `s` without its trailing white space.
pub open spec fn trim_end(s: Seq<char>) -> Seq<char>
    decreases s.len(),
{
    if s.len() > 0 && is_space(s.last()) {
        trim_end(s.drop_last())
    } else {
        s
    }
}

/// What `str::trim` gives: `s` without leading and trailing white space.
pub open spec fn trim(s: Seq<char>) -> Seq<char> {
    trim_end(trim_start(s))
}

proof fn lemma_trim_start_at(s: Seq<char>, a: int)
    requires
        0 <= a <= s.len(),
        forall|k: int| 0 <= k < a ==> is_space(#[trigger] s[k]),
        a == s.len() || !is_space(s[a]),
    ensures
        trim_start(s) == s.subrange(a, s.len() as int),
    decreases a,
{
    if a == 0 {
        assert(s.subrange(0, s.len() as int) =~= s);
    } else {
        let t = s.drop_first();
        assert forall|k: int| 0 <= k < a - 1 implies is_space(#[trigger] t[k]) by {
            assert(t[k] == s[k + 1]);
        }
        lemma_trim_start_at(t, a - 1);
        assert(t.subrange(a - 1, t.len() as int) =~= s.subrange(a, s.len() as int));
    }
}

proof fn lemma_trim_end_at(s: Seq<char>, b: int)
    requires
        0 <= b <= s.len(),
        forall|k: int| b <= k < s.len() ==> is_space(#[trigger] s[k]),
        b == 0 || !is_space(s[b - 1]),
    ensures
        trim_end(s) == s.subrange(0, b),
    decreases s.len() - b,
{
    if b == s.len() {
        assert(s.subrange(0, b) =~= s);
    } else {
        let t = s.drop_last();
        assert forall|k: int| b <= k < t.len() implies is_space(#[trigger] t[k]) by {
            assert(t[k] == s[k]);
        }
        if b > 0 {
            assert(t[b - 1] == s[b - 1]);
        }
        lemma_trim_end_at(t, b);
        assert(t.subrange(0, b) =~= s.subrange(0, b));
    }
}

/// `s` without leading and trailing white space, as `str::trim` does.
pub fn trim_chars(s: &[char]) -> (r: Vec<char>)
    ensures
        r@ == trim(s@),
{
    let n = s.len();
    let mut a: usize = 0;
    while a < n && is_space_exec(s[a])
        invariant
            n == s@.len(),
            a <= n,
            forall|k: int| 0 <= k < a ==> is_space(#[trigger] s@[k]),
        decreases n - a,
    {
        a = a + 1;
    }
    let mut b: usize = n;
    while b > a && is_space_exec(s[b - 1])
        invariant
            n == s@.len(),
            a <= b <= n,
            forall|k: int| b <= k < n ==> is_space(#[trigger] s@[k]),
        decreases b,
    {
        b = b - 1;
    }
    proof {
        lemma_trim_start_at(s@, a as int);
        let t = s@.subrange(a as int, n as int);
        assert forall|k: int| (b - a) <= k < t.len() implies is_space(#[trigger] t[k]) by {
            assert(t[k] == s@[k + a]);
        }
        if b > a {
            assert(t[b - a - 1] == s@[b - 1]);
        }
        lemma_trim_end_at(t, b - a);
        assert(t.subrange(0, b - a) =~= s@.subrange(a as int, b as int));
    }
    let mut r: Vec<char> = Vec::new();
    let mut i: usize = a;
    while i < b
        invariant
            n == s@.len(),
            a <= i <= b <= n,
            r@ == s@.subrange(a as int, i as int),
        decreases b - i,
    {
        r.push(s[i]);
        i = i + 1;
        assert(r@ =~= s@.subrange(a as int, i as int));
    }
    r
}

pub open spec fn is_digit(c: char) -> bool {
    '0' <= c && c <= '9'
}

pub open spec fn digit_value(c: char) -> nat {
    (c as u32 - '0' as u32) as nat
}

pub open spec fn all_digits(s: Seq<char>) -> bool {
    forall|k: int| 0 <= k < s.len() ==> is_digit(#[trigger] s[k])
}

/// The number that a string of decimal digits denotes.
pub open spec fn digits_value(s: Seq<char>) -> nat
    decreases s.len(),
{
    if s.len() == 0 {
        0
    } else {
        digits_value(s.drop_last()) * 10 + digit_value(s.last())
    }
}

/// What `u64::from_str` gives: an optional `+`, then one or more decimal digits
/// whose value fits in a `u64`.
pub open spec fn parse_u64_spec(s: Seq<char>) -> Option<u64> {
    let body = if s.len() > 0 && s[0] == '+' {
        s.drop_first()
    } else {
        s
    };
    if body.len() > 0 && all_digits(body) && digits_value(body) <= u64::MAX {
        Some(digits_value(body) as u64)
    } else {
        None
    }
}

/// What `i64::from_str` gives: an optional sign, then one or more decimal digits
/// whose signed value fits in an `i64`.
pub open spec fn parse_i64_spec(s: Seq<char>) -> Option<i64> {
    let neg = s.len() > 0 && s[0] == '-';
    let body = if s.len() > 0 && (s[0] == '+' || s[0] == '-') {
        s.drop_first()
    } else {
        s
    };
    if body.len() > 0 && all_digits(body) {
        if neg && digits_value(body) <= 0x8000_0000_0000_0000 {
            Some((0 - digits_value(body)) as i64)
        } else if !neg && digits_value(body) <= i64::MAX {
            Some(digits_value(body) as i64)
        } else {
            None
        }
    } else {
        None
    }
}

proof fn lemma_digits_value_push(s: Seq<char>, c: char)
    ensures
        digits_value(s.push(c)) == digits_value(s) * 10 + digit_value(c),
{
    assert(s.push(c).drop_last() =~= s);
}

proof fn lemma_digits_value_grows(s: Seq<char>, i: int)
    requires
        0 <= i <= s.len(),
        all_digits(s),
    ensures
        digits_value(s.subrange(0, i)) <= digits_value(s),
    decreases s.len() - i,
{
    if i < s.len() {
        lemma_digits_value_grows(s, i + 1);
        let p = s.subrange(0, i + 1);
        assert(p.drop_last() =~= s.subrange(0, i));
    } else {
        assert(s.subrange(0, i) =~= s);
    }
}

/// Value of the digits `s[from..]` if they are all digits and the value is at most `limit`.
fn digits_up_to(s: &[char], from: usize, limit: u64) -> (r: Option<u64>)
    requires
        from <= s@.len(),
        limit >= 9,
    ensures
        ({
            let body = s@.subrange(from as int, s@.len() as int);
            r == if body.len() > 0 && all_digits(body) && digits_value(body) <= limit {
                Some(digits_value(body) as u64)
            } else {
                None
            }
        }),
{
    let n = s.len();
    let ghost body = s@.subrange(from as int, n as int);
    if from == n {
        return None;
    }
    let mut acc: u64 = 0;
    let mut i: usize = from;
    while i < n
        invariant
            from <= i <= n,
            n == s@.len(),
            body == s@.subrange(from as int, n as int),
            all_digits(body.subrange(0, i - from)),
            acc == digits_value(body.subrange(0, i - from)),
            acc <= limit,
            limit >= 9,
        decreases n - i,
    {
        let c = s[i];
        if !('0' <= c && c <= '9') {
            proof {
                assert(!is_digit(body[i - from]));
            }
            return None;
        }
        let d = (c as u32 - '0' as u32) as u64;
        proof {
            assert(body.subrange(0, i + 1 - from) =~= body.subrange(0, i - from).push(c));
            lemma_digits_value_push(body.subrange(0, i - from), c);
        }
        if acc > (limit - d) / 10 {
            proof {
                let p = body.subrange(0, i + 1 - from);
                assert(all_digits(p));
                assert(acc * 10 + d > limit) by (nonlinear_arith)
                    requires
                        acc > (limit - d) / 10,
                        d <= limit,
                ;
                if all_digits(body) {
                    lemma_digits_value_grows(body, i + 1 - from);
                }
            }
            return None;
        }
        assert(acc * 10 + d <= limit) by (nonlinear_arith)
            requires
                acc <= (limit - d) / 10,
                d <= limit,
        ;
        acc = acc * 10 + d;
        i = i + 1;
    }
    proof {
        assert(body.subrange(0, n - from) =~= body);
    }
    Some(acc)
}

/// Parses a decimal `u64` as `u64::from_str` does.
pub fn parse_u64(s: &[char]) -> (r: Option<u64>)
    ensures
        r == parse_u64_spec(s@),
{
    let from: usize = if s.len() > 0 && s[0] == '+' {
        1
    } else {
        0
    };
    proof {
        if from == 1 {
            assert(s@.drop_first() =~= s@.subrange(1, s@.len() as int));
        } else {
            assert(s@ =~= s@.subrange(0, s@.len() as int));
        }
    }
    digits_up_to(s, from, u64::MAX)
}

/// Parses a decimal `i64` as `i64::from_str` does.
pub fn parse_i64(s: &[char]) -> (r: Option<i64>)
    ensures
        r == parse_i64_spec(s@),
{
    let neg = s.len() > 0 && s[0] == '-';
    let from: usize = if s.len() > 0 && (s[0] == '+' || s[0] == '-') {
        1
    } else {
        0
    };
    proof {
        if from == 1 {
            assert(s@.drop_first() =~= s@.subrange(1, s@.len() as int));
        } else {
            assert(s@ =~= s@.subrange(0, s@.len() as int));
        }
    }
    if neg {
        match digits_up_to(s, from, 0x8000_0000_0000_0000u64) {
            Some(v) => {
                if v == 0x8000_0000_0000_0000u64 {
                    Some(i64::MIN)
                } else {
                    Some(0i64 - (v as i64))
                }
            },
            None => None,
        }
    } else {
        match digits_up_to(s, from, i64::MAX as u64) {
            Some(v) => Some(v as i64),
            None => None,
        }
    }
}

pub open spec fn digit_char(d: nat) -> char
    recommends
        d < 10,
{
    (d + '0' as nat) as char
}

/// The decimal representation of `n`, as `format!("{}", n)` writes it.
pub open spec fn dec_chars(n: nat) -> Seq<char>
    decreases n,
{
    if n < 10 {
        seq![digit_char(n)]
    } else {
        dec_chars(n / 10).push(digit_char(n % 10))
    }
}

/// The decimal representation of `n`.
pub fn dec_u64(n: u64) -> (r: Vec<char>)
    ensures
        r@ == dec_chars(n as nat),
    decreases n,
{
    if n < 10 {
        let c = ((n as u32) + ('0' as u32)) as u8 as char;
        let mut v: Vec<char> = Vec::new();
        v.push(c);
        proof {
            assert(v@ =~= seq![digit_char(n as nat)]);
        }
        v
    } else {
        let mut v = dec_u64(n / 10);
        let c = (((n % 10) as u32) + ('0' as u32)) as u8 as char;
        v.push(c);
        v
    }
}

/// Appends the characters of `t` to `v`.
pub fn extend_chars(v: &mut Vec<char>, t: &[char])
    ensures
        final(v)@ == old(v)@ + t@,
{
    let mut i: usize = 0;
    while i < t.len()
        invariant
            i <= t@.len(),
            v@ == old(v)@ + t@.subrange(0, i as int),
        decreases t@.len() - i,
    {
        v.push(t[i]);
        i = i + 1;
        assert(v@ =~= old(v)@ + t@.subrange(0, i as int));
    }
    assert(t@.subrange(0, t@.len() as int) =~= t@);
}

/// Appends the characters of `s` to `v`.
pub fn extend_str(v: &mut Vec<char>, s: &str)
    ensures
        final(v)@ == old(v)@ + s@,
{
    let t = chars_of(s);
    extend_chars(v, t.as_slice());
}

pub open spec fn has_suffix(s: Seq<char>, t: Seq<char>) -> bool {
    t.len() <= s.len() && s.subrange(s.len() - t.len(), s.len() as int) == t
}

pub open spec fn has_prefix(s: Seq<char>, t: Seq<char>) -> bool {
    t.len() <= s.len() && s.subrange(0, t.len() as int) == t
}

/// Whether `s` ends with `t`.
pub fn ends_with_chars(s: &[char], t: &[char]) -> (b: bool)
    ensures
        b == has_suffix(s@, t@),
{
    if t.len() > s.len() {
        return false;
    }
    let sl = s.len();
    let off = sl - t.len();
    let mut i: usize = 0;
    while i < t.len()
        invariant
            sl == s@.len(),
            off == s@.len() - t@.len(),
            off + t@.len() == s@.len(),
            t@.len() <= s@.len(),
            i <= t@.len(),
            forall|k: int| 0 <= k < i ==> s@[off + k] == t@[k],
        decreases t@.len() - i,
    {
        if s[off + i] != t[i] {
            proof {
                assert(s@.subrange(off as int, s@.len() as int)[i as int] != t@[i as int]);
            }
            return false;
        }
        i = i + 1;
    }
    proof {
        assert(s@.subrange(off as int, s@.len() as int) =~= t@);
    }
    true
}

/// Whether `s` starts with `t`.
pub fn starts_with_chars(s: &[char], t: &[char]) -> (b: bool)
    ensures
        b == has_prefix(s@, t@),
{
    if t.len() > s.len() {
        return false;
    }
    let mut i: usize = 0;
    while i < t.len()
        invariant
            t@.len() <= s@.len(),
            i <= t@.len(),
            forall|k: int| 0 <= k < i ==> s@[k] == t@[k],
        decreases t@.len() - i,
    {
        if s[i] != t[i] {
            proof {
                assert(s@.subrange(0, t@.len() as int)[i as int] != t@[i as int]);
            }
            return false;
        }
        i = i + 1;
    }
    proof {
        assert(s@.subrange(0, t@.len() as int) =~= t@);
    }
    true
}

/// Whether two character sequences are equal.
pub fn chars_equal(s: &[char], t: &[char]) -> (b: bool)
    ensures
        b == (s@ == t@),
{
    if s.len() != t.len() {
        return false;
    }
    let r = starts_with_chars(s, t);
    proof {
        assert(s@.subrange(0, t@.len() as int) =~= s@);
    }
    r
}

/// Whether the text of `s` equals the text of `t`.
pub fn str_equal(s: &str, t: &str) -> (b: bool)
    ensures
        b == (s@ == t@),
{
    let a = chars_of(s);
    let c = chars_of(t);
    chars_equal(a.as_slice(), c.as_slice())
}

} // verus!
