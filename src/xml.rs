//! Reading the texts of flat tags out of an XML document, as the listing
//! responses need it: no nesting of the same tag, no entity decoding.
use crate::text::{has_prefix, string_from_chars, text_of};
use vstd::prelude::*;
use vstd::string::*;

verus! {

/// Where `p` first occurs in `s`.
pub open spec fn index_of(s: Seq<char>, p: Seq<char>) -> Option<int>
    decreases s.len(),
{
    if p.len() <= s.len() && s.subrange(0, p.len() as int) == p {
        Some(0)
    } else if s.len() == 0 {
        None
    } else {
        match index_of(s.drop_first(), p) {
            Some(i) => Some(i + 1),
            None => None,
        }
    }
}

/// The texts between each `open` and the first `close` after it, scanning
/// `s` from the left; an `open` without a `close` after it ends the scan.
pub open spec fn tag_values(s: Seq<char>, open: Seq<char>, close: Seq<char>) -> Seq<Seq<char>>
    decreases s.len(),
{
    if open.len() == 0 {
        Seq::empty()
    } else {
        match index_of(s, open) {
            Some(a) => if 0 <= a && a + open.len() <= s.len() {
                let rest = s.subrange(a + open.len(), s.len() as int);
                match index_of(rest, close) {
                    Some(c) => if 0 <= c && c + close.len() <= rest.len() {
                        seq![rest.subrange(0, c)] + tag_values(
                            rest.subrange(c + close.len(), rest.len() as int),
                            open,
                            close,
                        )
                    } else {
                        Seq::empty()
                    },
                    None => Seq::empty(),
                }
            } else {
                Seq::empty()
            },
            None => Seq::empty(),
        }
    }
}

proof fn lemma_index_of_bounds(s: Seq<char>, p: Seq<char>)
    ensures
        index_of(s, p) matches Some(i) ==> 0 <= i && i + p.len() <= s.len(),
    decreases s.len(),
{
    if !(p.len() <= s.len() && s.subrange(0, p.len() as int) == p) && s.len() > 0 {
        lemma_index_of_bounds(s.drop_first(), p);
    }
}

/// The first position at or after `from` where `p` occurs in `s`.
fn find(s: &str, from: usize, p: &str) -> (r: Option<usize>)
    requires
        from <= s@.len(),
    ensures
        match index_of(s@.subrange(from as int, s@.len() as int), p@) {
            Some(i) => r == Some((from + i) as usize),
            None => r is None,
        },
        r matches Some(k) ==> from <= k && k + p@.len() <= s@.len(),
{
    let n = s.unicode_len();
    let m = p.unicode_len();
    let mut i: usize = from;
    loop
        invariant
            n == s@.len(),
            m == p@.len(),
            from <= i,
            i <= n,
            index_of(s@.subrange(from as int, n as int), p@) == match index_of(
                s@.subrange(i as int, n as int),
                p@,
            ) {
                Some(k) => Some(k + (i - from)),
                None => None,
            },
        decreases n - i,
    {
        let t = s.substring_char(i, n);
        if has_prefix(t, p) {
            proof {
                lemma_index_of_bounds(s@.subrange(from as int, n as int), p@);
            }
            return Some(i);
        }
        if i == n {
            return None;
        }
        proof {
            let u = s@.subrange(i as int, n as int);
            assert(u.drop_first() =~= s@.subrange(i + 1, n as int));
        }
        i = i + 1;
    }
    None
}

/// The texts of all `open`…`close` pairs in `s`, in order.
pub fn tag_texts(s: &str, open: &str, close: &str) -> (r: Vec<String>)
    requires
        open@.len() > 0,
    ensures
        r@.map_values(|t: String| t@) == tag_values(s@, open@, close@),
{
    let n = s.unicode_len();
    let m = open.unicode_len();
    let mut out: Vec<String> = Vec::new();
    let mut i: usize = 0;
    assert(s@.subrange(0, n as int) =~= s@);
    loop
        invariant
            n == s@.len(),
            m == open@.len(),
            m > 0,
            i <= n,
            out@.map_values(|t: String| t@) + tag_values(s@.subrange(i as int, n as int), open@, close@)
                == tag_values(s@, open@, close@),
        decreases n - i,
    {
        let ghost t = s@.subrange(i as int, n as int);
        let a = match find(s, i, open) {
            Some(a) => a,
            None => {
                assert(out@.map_values(|t: String| t@) =~= tag_values(s@, open@, close@));
                return out;
            },
        };
        let b = a + m;
        let ghost rest = t.subrange((a - i) + m, t.len() as int);
        assert(rest =~= s@.subrange(b as int, n as int));
        let c = match find(s, b, close) {
            Some(c) => c,
            None => {
                assert(out@.map_values(|t: String| t@) =~= tag_values(s@, open@, close@));
                return out;
            },
        };
        let ghost before = out@.map_values(|t: String| t@);
        out.push(text_of(s.substring_char(b, c)));
        let next = c + close.unicode_len();
        proof {
            lemma_index_of_bounds(t, open@);
            lemma_index_of_bounds(rest, close@);
            assert(index_of(t, open@) == Some((a - i) as int));
            assert(index_of(rest, close@) == Some((c - b) as int));
            assert(tag_values(t, open@, close@) == seq![rest.subrange(0, c - b)] + tag_values(
                rest.subrange((c - b) + close@.len(), rest.len() as int),
                open@,
                close@,
            ));
            assert(rest.subrange(0, c - b) =~= s@.subrange(b as int, c as int));
            assert(rest.subrange((c - b) + close@.len(), rest.len() as int) =~= s@.subrange(
                next as int,
                n as int,
            ));
            assert(out@.map_values(|t: String| t@) =~= before + seq![s@.subrange(b as int, c as int)]);
        }
        i = next;
    }
}

/// The text of the first `open`…`close` pair in `s`, if there is one.
pub fn first_tag_text(s: &str, open: &str, close: &str) -> (r: Option<String>)
    requires
        open@.len() > 0,
    ensures
        tag_values(s@, open@, close@).len() == 0 ==> r is None,
        tag_values(s@, open@, close@).len() > 0 ==> (r matches Some(t) && t@ == tag_values(
            s@,
            open@,
            close@,
        )[0]),
{
    let all = tag_texts(s, open, close);
    if all.len() == 0 {
        None
    } else {
        assert(all@.map_values(|t: String| t@)[0] == all@[0]@);
        Some(text_of(all[0].as_str()))
    }
}

/// Whether `s` starts with `p`.
pub open spec fn starts(s: Seq<char>, p: Seq<char>) -> bool {
    p.len() <= s.len() && s.subrange(0, p.len() as int) == p
}

/// `s` with the five predefined XML entities (`&amp;`, `&lt;`, `&gt;`,
/// `&quot;`, `&apos;`) replaced by their characters, scanning from the left.
pub open spec fn xml_unescape(s: Seq<char>) -> Seq<char>
    decreases s.len(),
{
    if s.len() == 0 {
        s
    } else if starts(s, seq!['&', 'a', 'm', 'p', ';']) {
        seq!['&'] + xml_unescape(s.subrange(5, s.len() as int))
    } else if starts(s, seq!['&', 'l', 't', ';']) {
        seq!['<'] + xml_unescape(s.subrange(4, s.len() as int))
    } else if starts(s, seq!['&', 'g', 't', ';']) {
        seq!['>'] + xml_unescape(s.subrange(4, s.len() as int))
    } else if starts(s, seq!['&', 'q', 'u', 'o', 't', ';']) {
        seq!['"'] + xml_unescape(s.subrange(6, s.len() as int))
    } else if starts(s, seq!['&', 'a', 'p', 'o', 's', ';']) {
        seq!['\''] + xml_unescape(s.subrange(6, s.len() as int))
    } else {
        seq![s[0]] + xml_unescape(s.drop_first())
    }
}

/// The text of an XML element with its entities decoded.
pub fn unescape(s: &str) -> (r: String)
    ensures
        r@ == xml_unescape(s@),
{
    proof {
        reveal_strlit("&amp;");
        reveal_strlit("&lt;");
        reveal_strlit("&gt;");
        reveal_strlit("&quot;");
        reveal_strlit("&apos;");
    }
    let n = s.unicode_len();
    let mut out: Vec<char> = Vec::new();
    let mut i: usize = 0;
    assert(s@.subrange(0, n as int) =~= s@);
    while i < n
        invariant
            n == s@.len(),
            i <= n,
            out@ + xml_unescape(s@.subrange(i as int, n as int)) == xml_unescape(s@),
            "&amp;"@ == seq!['&', 'a', 'm', 'p', ';'],
            "&lt;"@ == seq!['&', 'l', 't', ';'],
            "&gt;"@ == seq!['&', 'g', 't', ';'],
            "&quot;"@ == seq!['&', 'q', 'u', 'o', 't', ';'],
            "&apos;"@ == seq!['&', 'a', 'p', 'o', 's', ';'],
        decreases n - i,
    {
        let t = s.substring_char(i, n);
        let ghost prev = out@;
        let step: usize;
        if has_prefix(t, "&amp;") {
            out.push('&');
            step = 5;
        } else if has_prefix(t, "&lt;") {
            out.push('<');
            step = 4;
        } else if has_prefix(t, "&gt;") {
            out.push('>');
            step = 4;
        } else if has_prefix(t, "&quot;") {
            out.push('"');
            step = 6;
        } else if has_prefix(t, "&apos;") {
            out.push('\'');
            step = 6;
        } else {
            out.push(s.get_char(i));
            step = 1;
        }
        proof {
            assert(t@.subrange(step as int, t@.len() as int) =~= s@.subrange(i + step, n as int));
            assert(t@.drop_first() =~= s@.subrange(i + 1, n as int));
            assert(out@ + xml_unescape(s@.subrange(i + step, n as int)) =~= xml_unescape(s@));
        }
        i = i + step;
    }
    assert(out@ =~= xml_unescape(s@));
    string_from_chars(&out)
}

/// Each string's text with its entities decoded.
pub fn unescape_all(v: &Vec<String>) -> (r: Vec<String>)
    ensures
        r@.len() == v@.len(),
        forall|i: int| 0 <= i < v@.len() ==> (#[trigger] r@[i])@ == xml_unescape(v@[i]@),
{
    let mut out: Vec<String> = Vec::new();
    let mut i: usize = 0;
    while i < v.len()
        invariant
            i <= v@.len(),
            out@.len() == i,
            forall|j: int| 0 <= j < i ==> (#[trigger] out@[j])@ == xml_unescape(v@[j]@),
        decreases v@.len() - i,
    {
        out.push(unescape(v[i].as_str()));
        i = i + 1;
    }
    out
}

} // verus!
