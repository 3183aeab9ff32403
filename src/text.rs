//! Small verified operations on text that the path and request logic share.
use vstd::prelude::*;
use vstd::string::*;
use vstd::utf8::encode_utf8;

verus! {

/// Whether `s` ends with a slash.
pub open spec fn ends_with_slash(s: Seq<char>) -> bool {
    s.len() > 0 && s.last() == '/'
}

/// `s` without any `c` at its start.
pub open spec fn trim_start(s: Seq<char>, c: char) -> Seq<char>
    decreases s.len(),
{
    if s.len() > 0 && s[0] == c {
        trim_start(s.drop_first(), c)
    } else {
        s
    }
}

/// `s` without any `c` at its end.
pub open spec fn trim_end(s: Seq<char>, c: char) -> Seq<char>
    decreases s.len(),
{
    if s.len() > 0 && s.last() == c {
        trim_end(s.drop_last(), c)
    } else {
        s
    }
}

/// `s` with each occurrence of the non-empty `from`, scanned from the
/// left without overlap, replaced by `to`.
pub open spec fn replace_all(s: Seq<char>, from: Seq<char>, to: Seq<char>) -> Seq<char>
    decreases s.len(),
{
    if s.len() == 0 {
        s
    } else if from.len() > 0 && from.len() <= s.len() && s.subrange(0, from.len() as int) == from {
        to + replace_all(s.subrange(from.len() as int, s.len() as int), from, to)
    } else {
        seq![s[0]] + replace_all(s.drop_first(), from, to)
    }
}

/// Whether `c` may stand in an HTTP header value: visible ASCII, a space,
/// a tab, or any character outside ASCII.
pub open spec fn header_char(c: char) -> bool {
    (c >= ' ' && c != '\x7f') || c == '\t'
}

/// Whether every character of `s` may stand in an HTTP header value.
pub open spec fn valid_header_value(s: Seq<char>) -> bool {
    forall|i: int| 0 <= i < s.len() ==> header_char(#[trigger] s[i])
}

/// Whether `c` is a decimal digit.
pub open spec fn is_digit(c: char) -> bool {
    '0' <= c <= '9'
}

/// The number that the decimal digits `s` denote.
pub open spec fn digits_value(s: Seq<char>) -> nat
    decreases s.len(),
{
    if s.len() == 0 {
        0
    } else {
        digits_value(s.drop_last()) * 10 + (s.last() as nat - 48) as nat
    }
}

/// Whether `s` is a non-empty run of decimal digits.
pub open spec fn all_digits(s: Seq<char>) -> bool {
    s.len() > 0 && forall|i: int| 0 <= i < s.len() ==> is_digit(#[trigger] s[i])
}

/// The decimal digit character of `d`, for `d < 10`.
pub open spec fn digit_char(d: nat) -> char {
    ((d + 48) as u8) as char
}

/// The decimal notation of `n`, without leading zeros.
pub open spec fn decimal(n: nat) -> Seq<char>
    decreases n,
{
    if n < 10 {
        seq![digit_char(n)]
    } else {
        decimal(n / 10).push(digit_char(n % 10))
    }
}

pub fn slash_at_end(s: &str) -> (r: bool)
    ensures
        r == ends_with_slash(s@),
{
    let n = s.unicode_len();
    n > 0 && s.get_char(n - 1) == '/'
}

/// Whether `p` is a prefix of `s`.
pub fn has_prefix(s: &str, p: &str) -> (r: bool)
    ensures
        r == (p@.len() <= s@.len() && s@.subrange(0, p@.len() as int) == p@),
{
    let n = s.unicode_len();
    let m = p.unicode_len();
    if m > n {
        return false;
    }
    let mut i: usize = 0;
    while i < m
        invariant
            m == p@.len(),
            n == s@.len(),
            m <= n,
            i <= m,
            forall|j: int| 0 <= j < i ==> s@[j] == p@[j],
        decreases m - i,
    {
        if s.get_char(i) != p.get_char(i) {
            assert(s@.subrange(0, m as int)[i as int] != p@[i as int]);
            return false;
        }
        i = i + 1;
    }
    assert(s@.subrange(0, m as int) =~= p@);
    true
}

/// Whether `a` and `b` hold the same characters.
pub fn same_text(a: &str, b: &str) -> (r: bool)
    ensures
        r == (a@ == b@),
{
    if a.unicode_len() != b.unicode_len() {
        return false;
    }
    let r = has_prefix(a, b);
    proof {
        assert(a@.subrange(0, a@.len() as int) =~= a@);
        if r {
            assert(a@ =~= b@);
        }
    }
    r
}

/// `s` as a new string.
pub fn text_of(s: &str) -> (r: String)
    ensures
        r@ == s@,
{
    String::from_str(s)
}

/// The concatenation of `a` and `b`.
pub fn join(a: &str, b: &str) -> (r: String)
    ensures
        r@ == a@ + b@,
{
    let mut r = String::from_str(a);
    r.append(b);
    r
}

/// `s` without the `c` at its start.
pub fn strip_start(s: &str, c: char) -> (r: String)
    ensures
        r@ == trim_start(s@, c),
{
    let n = s.unicode_len();
    let mut i: usize = 0;
    assert(s@.subrange(0, n as int) =~= s@);
    while i < n && s.get_char(i) == c
        invariant
            n == s@.len(),
            i <= n,
            trim_start(s@, c) == trim_start(s@.subrange(i as int, n as int), c),
        decreases n - i,
    {
        assert(s@.subrange(i as int, n as int).drop_first() =~= s@.subrange(i + 1, n as int));
        i = i + 1;
    }
    let r = String::from_str(s.substring_char(i, n));
    proof {
        let t = s@.subrange(i as int, n as int);
        assert(!(t.len() > 0 && t[0] == c));
    }
    r
}

/// `s` without the `c` at its end.
pub fn strip_end(s: &str, c: char) -> (r: String)
    ensures
        r@ == trim_end(s@, c),
{
    let n = s.unicode_len();
    let mut j: usize = n;
    assert(s@.subrange(0, n as int) =~= s@);
    while j > 0 && s.get_char(j - 1) == c
        invariant
            n == s@.len(),
            j <= n,
            trim_end(s@, c) == trim_end(s@.subrange(0, j as int), c),
        decreases j,
    {
        assert(s@.subrange(0, j as int).drop_last() =~= s@.subrange(0, j - 1));
        j = j - 1;
    }
    String::from_str(s.substring_char(0, j))
}

/// `s` with each occurrence of `from` replaced by `to`.
pub fn replace_text(s: &str, from: &str, to: &str) -> (r: String)
    requires
        from@.len() > 0,
    ensures
        r@ == replace_all(s@, from@, to@),
{
    let n = s.unicode_len();
    let m = from.unicode_len();
    let mut out = String::new();
    let mut i: usize = 0;
    assert(s@.subrange(0, n as int) =~= s@);
    while i < n
        invariant
            n == s@.len(),
            m == from@.len(),
            m > 0,
            i <= n,
            out@ + replace_all(s@.subrange(i as int, n as int), from@, to@) == replace_all(
                s@,
                from@,
                to@,
            ),
        decreases n - i,
    {
        let rest = s.substring_char(i, n);
        let ghost t = s@.subrange(i as int, n as int);
        if m <= n - i && has_prefix(rest, from) {
            out.append(to);
            proof {
                assert(t.subrange(m as int, t.len() as int) =~= s@.subrange(i + m, n as int));
                assert(out@ + replace_all(s@.subrange(i + m, n as int), from@, to@) =~= replace_all(
                    s@,
                    from@,
                    to@,
                ));
            }
            i = i + m;
        } else {
            out.append(s.substring_char(i, i + 1));
            proof {
                assert(t.drop_first() =~= s@.subrange(i + 1, n as int));
                assert(s@.subrange(i as int, i + 1) =~= seq![t[0]]);
                assert(out@ + replace_all(s@.subrange(i + 1, n as int), from@, to@) =~= replace_all(
                    s@,
                    from@,
                    to@,
                ));
            }
            i = i + 1;
        }
    }
    assert(replace_all(s@.subrange(n as int, n as int), from@, to@) =~= Seq::<char>::empty());
    assert(out@ =~= replace_all(s@, from@, to@));
    out
}

/// The number that `s` spells in decimal digits, or `None` when `s` is
/// not a run of digits or the number does not fit in 64 bits.
pub fn parse_decimal(s: &str) -> (r: Option<u64>)
    ensures
        r matches Some(v) ==> all_digits(s@) && v == digits_value(s@),
        r is None ==> !all_digits(s@) || digits_value(s@) > u64::MAX,
{
    let n = s.unicode_len();
    if n == 0 {
        return None;
    }
    let mut acc: u64 = 0;
    let mut i: usize = 0;
    while i < n
        invariant
            n == s@.len(),
            n > 0,
            i <= n,
            acc == digits_value(s@.subrange(0, i as int)),
            forall|j: int| 0 <= j < i ==> is_digit(#[trigger] s@[j]),
        decreases n - i,
    {
        let c = s.get_char(i);
        assert(s@.subrange(0, i + 1).drop_last() =~= s@.subrange(0, i as int));
        if !('0' <= c && c <= '9') {
            return None;
        }
        let d: u64 = (c as u32 - 48) as u64;
        if acc > (u64::MAX - d) / 10 {
            proof {
                lemma_digits_prefix_grows(s@, i as int + 1);
            }
            return None;
        }
        acc = acc * 10 + d;
        i = i + 1;
    }
    assert(s@.subrange(0, n as int) =~= s@);
    Some(acc)
}

proof fn lemma_digits_prefix_grows(s: Seq<char>, k: int)
    requires
        0 < k <= s.len(),
    ensures
        digits_value(s) >= digits_value(s.subrange(0, k)),
    decreases s.len() - k,
{
    if k < s.len() {
        lemma_digits_prefix_grows(s, k + 1);
        assert(s.subrange(0, k + 1).drop_last() =~= s.subrange(0, k));
        lemma_digits_monotone_step(s.subrange(0, k + 1));
    } else {
        assert(s.subrange(0, k) =~= s);
    }
}

proof fn lemma_digits_monotone_step(s: Seq<char>)
    requires
        s.len() > 0,
    ensures
        digits_value(s) >= digits_value(s.drop_last()),
{
    assert(s.last() as nat >= 0);
}

/// Relies on `http::HeaderValue::from_str`, which accepts a string exactly
/// when each of its bytes is at least 32 and not 127, or a tab; in UTF-8
/// that holds of a character's bytes exactly when it holds of the character.
#[verifier::external_body]
pub(crate) fn is_header_value(s: &str) -> (r: bool)
    ensures
        r == valid_header_value(s@),
{
    http::HeaderValue::from_str(s).is_ok()
}

/// The characters of `digits`, in order, as a string.
///
/// Relies on std's `String: FromIterator<char>`, which appends each
/// character in turn.
#[verifier::external_body]
pub(crate) fn string_from_chars(digits: &Vec<char>) -> (r: String)
    ensures
        r@ == digits@,
{
    digits.iter().collect()
}

fn digit_of(d: u64) -> (c: char)
    requires
        d < 10,
    ensures
        c == digit_char(d as nat),
{
    ((d as u8) + 48) as char
}

fn push_decimal(n: u64, out: &mut Vec<char>)
    ensures
        final(out)@ == old(out)@ + decimal(n as nat),
    decreases n,
{
    if n >= 10 {
        push_decimal(n / 10, out);
    }
    out.push(digit_of(n % 10));
    assert(out@ =~= old(out)@ + decimal(n as nat));
}

/// The decimal notation of `n`.
pub fn decimal_text(n: u64) -> (r: String)
    ensures
        r@ == decimal(n as nat),
{
    let mut v: Vec<char> = Vec::new();
    push_decimal(n, &mut v);
    assert(v@ =~= decimal(n as nat));
    string_from_chars(&v)
}

/// Whether a byte stands for itself in a URL: an ASCII letter or digit,
/// or one of `-`, `.`, `_`, `~`.
pub open spec fn unreserved(b: u8) -> bool {
    (65 <= b <= 90) || (97 <= b <= 122) || (48 <= b <= 57) || b == 45 || b == 46 || b == 95
        || b == 126
}

/// The upper-case hexadecimal digit of `d`, for `d < 16`.
pub open spec fn hex_char(d: u8) -> char {
    if d < 10 {
        ((d + 48) as u8) as char
    } else {
        ((d + 55) as u8) as char
    }
}

/// How one byte is written in a URL component.
pub open spec fn encode_byte(b: u8) -> Seq<char> {
    if unreserved(b) {
        seq![b as char]
    } else {
        seq!['%', hex_char(b / 16), hex_char(b % 16)]
    }
}

/// The percent-encoding of `b`: unreserved bytes as they are, every other
/// byte as `%` and two upper-case hex digits.
pub open spec fn percent_encode(b: Seq<u8>) -> Seq<char>
    decreases b.len(),
{
    if b.len() == 0 {
        Seq::empty()
    } else {
        percent_encode(b.drop_last()) + encode_byte(b.last())
    }
}

/// The percent-encoding of the UTF-8 bytes of `s`.
pub open spec fn url_encode(s: Seq<char>) -> Seq<char> {
    percent_encode(encode_utf8(s))
}

fn hex_of(d: u8) -> (c: char)
    requires
        d < 16,
    ensures
        c == hex_char(d),
{
    if d < 10 {
        (d + 48) as char
    } else {
        (d + 55) as char
    }
}

/// `s` encoded as a URL query component.
pub fn url_encoded(s: &str) -> (r: String)
    ensures
        r@ == url_encode(s@),
{
    let bytes = s.as_bytes();
    let mut out: Vec<char> = Vec::new();
    let mut i: usize = 0;
    assert(bytes@.subrange(0, 0) =~= Seq::<u8>::empty());
    while i < bytes.len()
        invariant
            i <= bytes@.len(),
            bytes@ == encode_utf8(s@),
            out@ == percent_encode(bytes@.subrange(0, i as int)),
        decreases bytes@.len() - i,
    {
        let b = bytes[i];
        let is_plain = (65 <= b && b <= 90) || (97 <= b && b <= 122) || (48 <= b && b <= 57) || b
            == 45 || b == 46 || b == 95 || b == 126;
        if is_plain {
            out.push(b as char);
        } else {
            out.push('%');
            out.push(hex_of(b / 16));
            out.push(hex_of(b % 16));
        }
        proof {
            assert(bytes@.subrange(0, i + 1).drop_last() =~= bytes@.subrange(0, i as int));
            assert(bytes@.subrange(0, i + 1).last() == b);
            assert(out@ =~= percent_encode(bytes@.subrange(0, i + 1)));
        }
        i = i + 1;
    }
    assert(bytes@.subrange(0, bytes@.len() as int) =~= bytes@);
    string_from_chars(&out)
}

} // verus!
