use vstd::prelude::*;

use crate::num::{decimal, fmt_decimal};
use crate::text::{
    chars_of, contains, find_from, lemma_find_from_some, matches_at, replace, replace_exec, replace_from,
    slice_vec, string_of,
};

verus! {

/// Appends `n` in decimal.
pub fn append_decimal(s: &mut String, n: u64)
    ensures
        final(s)@ == old(s)@ + decimal(n as nat),
{
    let d = string_of(&fmt_decimal(n));
    s.append(d.as_str());
}

/// The characters a name keeps: ASCII letters and digits, `-`, `_` and `.`.
pub open spec fn is_name_char(c: char) -> bool {
    ('a' <= c && c <= 'z') || ('A' <= c && c <= 'Z') || ('0' <= c && c <= '9') || c == '-' || c == '_'
        || c == '.'
}

pub open spec fn name_char(c: char) -> char {
    if is_name_char(c) { c } else { '_' }
}

/// Index of the first character other than `c` at or after `i` (or the length).
pub open spec fn skip_char(s: Seq<char>, c: char, i: int) -> int
    decreases s.len() - i,
{
    if 0 <= i < s.len() && s[i] == c {
        skip_char(s, c, i + 1)
    } else {
        i
    }
}

/// Position just after the last character other than `c` before `j` (or 0).
pub open spec fn back_char(s: Seq<char>, c: char, j: int) -> int
    decreases j,
{
    if 0 < j <= s.len() && s[j - 1] == c {
        back_char(s, c, j - 1)
    } else {
        j
    }
}

/// `str::trim_matches` with one character: `c` removed at both ends.
pub open spec fn trim_char(s: Seq<char>, c: char) -> Seq<char> {
    let t = s.subrange(skip_char(s, c, 0), s.len() as int);
    t.subrange(0, back_char(t, c, t.len() as int))
}

/// A name fit for a file: every other character becomes `_`, and `_` is
/// trimmed from both ends.
pub open spec fn sanitized(s: Seq<char>) -> Seq<char> {
    trim_char(s.map_values(|c: char| name_char(c)), '_')
}

pub proof fn lemma_skip_char(s: Seq<char>, c: char, i: int)
    requires
        0 <= i <= s.len(),
    ensures
        i <= skip_char(s, c, i) <= s.len(),
        skip_char(s, c, i) < s.len() ==> s[skip_char(s, c, i)] != c,
    decreases s.len() - i,
{
    if i < s.len() && s[i] == c {
        lemma_skip_char(s, c, i + 1);
    }
}

pub proof fn lemma_back_char(s: Seq<char>, c: char, j: int)
    requires
        0 <= j <= s.len(),
    ensures
        0 <= back_char(s, c, j) <= j,
        back_char(s, c, j) > 0 ==> s[back_char(s, c, j) - 1] != c,
    decreases j,
{
    if 0 < j && s[j - 1] == c {
        lemma_back_char(s, c, j - 1);
    }
}

fn is_name_char_exec(c: char) -> (r: bool)
    ensures
        r == is_name_char(c),
{
    ('a' <= c && c <= 'z') || ('A' <= c && c <= 'Z') || ('0' <= c && c <= '9') || c == '-' || c == '_'
        || c == '.'
}

fn trim_char_exec(m: &Vec<char>, c: char) -> (r: Vec<char>)
    ensures
        r@ == trim_char(m@, c),
{
    let mut a: usize = 0;
    while a < m.len() && m[a] == c
        invariant
            a <= m.len(),
            skip_char(m@, c, 0) == skip_char(m@, c, a as int),
        decreases m.len() - a,
    {
        a = a + 1;
    }
    let t = slice_vec(m, a, m.len());
    let mut b: usize = t.len();
    while b > 0 && t[b - 1] == c
        invariant
            b <= t.len(),
            back_char(t@, c, t.len() as int) == back_char(t@, c, b as int),
        decreases b,
    {
        b = b - 1;
    }
    slice_vec(&t, 0, b)
}

pub fn sanitize_name(value: &str) -> (r: String)
    ensures
        r@ == sanitized(value@),
{
    let cs = chars_of(value);
    let mut m: Vec<char> = Vec::new();
    let mut i: usize = 0;
    while i < cs.len()
        invariant
            i <= cs.len(),
            m@ == cs@.take(i as int).map_values(|c: char| name_char(c)),
        decreases cs.len() - i,
    {
        let c = cs[i];
        let k = if is_name_char_exec(c) { c } else { '_' };
        m.push(k);
        assert(cs@.take(i + 1).map_values(|c: char| name_char(c)) =~= cs@.take(i as int).map_values(
            |c: char| name_char(c),
        ).push(name_char(cs@[i as int])));
        i = i + 1;
    }
    assert(cs@.take(cs.len() as int) =~= cs@);
    string_of(&trim_char_exec(&m, '_'))
}

/// A sanitized name is left as it is by sanitizing it again.
pub proof fn law_sanitize_is_stable(s: Seq<char>)
    ensures
        sanitized(sanitized(s)) == sanitized(s),
{
    let m = s.map_values(|c: char| name_char(c));
    let a = skip_char(m, '_', 0);
    lemma_skip_char(m, '_', 0);
    let t = m.subrange(a, m.len() as int);
    let b = back_char(t, '_', t.len() as int);
    lemma_back_char(t, '_', t.len() as int);
    let x = t.subrange(0, b);
    assert(x == sanitized(s));
    assert(x.map_values(|c: char| name_char(c)) =~= x);
    if x.len() > 0 {
        assert(x[0] == m[a]);
        assert(skip_char(x, '_', 0) == 0);
        assert(x[x.len() - 1] == t[b - 1]);
        assert(back_char(x, '_', x.len() as int) == x.len());
    }
    assert(trim_char(x, '_') =~= x);
}

/// No character of `s` is `d`.
pub open spec fn free_of(s: Seq<char>, d: char) -> bool {
    forall|j: int| 0 <= j < s.len() ==> s[j] != d
}

/// `xml_escape`: `&`, `<`, `>`, `"` and `'` become entities, in that order.
pub open spec fn xml_escaped(s: Seq<char>) -> Seq<char> {
    replace(
        replace(
            replace(replace(replace(s, seq!['&'], "&amp;"@), seq!['<'], "&lt;"@), seq!['>'], "&gt;"@),
            seq!['"'],
            "&quot;"@,
        ),
        seq!['\''],
        "&apos;"@,
    )
}

fn single(c: char) -> (r: Vec<char>)
    ensures
        r@ == seq![c],
{
    let r = vec![c];
    assert(r@ =~= seq![c]);
    r
}

pub fn xml_escape(value: &str) -> (r: String)
    ensures
        r@ == xml_escaped(value@),
{
    let s0 = chars_of(value);
    let s1 = replace_exec(&s0, &single('&'), &chars_of("&amp;"));
    let s2 = replace_exec(&s1, &single('<'), &chars_of("&lt;"));
    let s3 = replace_exec(&s2, &single('>'), &chars_of("&gt;"));
    let s4 = replace_exec(&s3, &single('"'), &chars_of("&quot;"));
    let s5 = replace_exec(&s4, &single('\''), &chars_of("&apos;"));
    string_of(&s5)
}

/// `value` with every occurrence of a non-empty `secret` masked.
pub open spec fn redacted(value: Seq<char>, secret: Seq<char>) -> Seq<char> {
    if secret.len() == 0 {
        value
    } else {
        replace(value, secret, "********"@)
    }
}

pub fn redact(value: &str, secret: &str) -> (r: String)
    ensures
        r@ == redacted(value@, secret@),
{
    let sec = chars_of(secret);
    if sec.len() == 0 {
        value.to_string()
    } else {
        string_of(&replace_exec(&chars_of(value), &sec, &chars_of("********")))
    }
}

} // verus!

verus! {

/// Replacing the character `c` by text free of `d` leaves text free of `d`,
/// where `d` is `c` itself or was absent already.
pub proof fn lemma_replace_keeps_free(s: Seq<char>, c: char, rep: Seq<char>, d: char, i: int)
    requires
        0 <= i <= s.len(),
        free_of(rep, d),
        d == c || (forall|m: int| i <= m < s.len() ==> s[m] != d),
    ensures
        free_of(replace_from(s, seq![c], rep, i), d),
    decreases s.len() - i,
{
    lemma_find_from_some(s, seq![c], i);
    match find_from(s, seq![c], i) {
        None => {
            let t = s.subrange(i, s.len() as int);
            assert forall|j: int| 0 <= j < t.len() implies t[j] != d by {
                let m = i + j;
                if d == c && s[m] == c {
                    assert(s.subrange(m, m + 1) =~= seq![c]);
                    assert(matches_at(s, seq![c], m));
                }
            }
        },
        Some(k) => {
            lemma_replace_keeps_free(s, c, rep, d, k + 1);
            let a = s.subrange(i, k);
            assert forall|j: int| 0 <= j < a.len() implies a[j] != d by {
                let m = i + j;
                if d == c && s[m] == c {
                    assert(s.subrange(m, m + 1) =~= seq![c]);
                    assert(matches_at(s, seq![c], m));
                }
            }
            let tail = replace_from(s, seq![c], rep, k + 1);
            let r = a + rep + tail;
            assert(replace_from(s, seq![c], rep, i) == r);
            assert forall|j: int| 0 <= j < r.len() implies r[j] != d by {
                if j < a.len() {
                } else if j < a.len() + rep.len() {
                    assert(r[j] == rep[j - a.len()]);
                } else {
                    assert(r[j] == tail[j - a.len() - rep.len()]);
                }
            }
        },
    }
}

/// Escaped text holds none of `<`, `>`, `"` and `'`.
pub proof fn law_xml_escaped_has_no_markup(s: Seq<char>)
    ensures
        free_of(xml_escaped(s), '<'),
        free_of(xml_escaped(s), '>'),
        free_of(xml_escaped(s), '"'),
        free_of(xml_escaped(s), '\''),
{
    reveal_strlit("&amp;");
    reveal_strlit("&lt;");
    reveal_strlit("&gt;");
    reveal_strlit("&quot;");
    reveal_strlit("&apos;");
    let s1 = replace(s, seq!['&'], "&amp;"@);
    let s2 = replace(s1, seq!['<'], "&lt;"@);
    let s3 = replace(s2, seq!['>'], "&gt;"@);
    let s4 = replace(s3, seq!['"'], "&quot;"@);
    let s5 = replace(s4, seq!['\''], "&apos;"@);
    lemma_replace_keeps_free(s1, '<', "&lt;"@, '<', 0);
    lemma_replace_keeps_free(s2, '>', "&gt;"@, '<', 0);
    lemma_replace_keeps_free(s2, '>', "&gt;"@, '>', 0);
    lemma_replace_keeps_free(s3, '"', "&quot;"@, '<', 0);
    lemma_replace_keeps_free(s3, '"', "&quot;"@, '>', 0);
    lemma_replace_keeps_free(s3, '"', "&quot;"@, '"', 0);
    lemma_replace_keeps_free(s4, '\'', "&apos;"@, '<', 0);
    lemma_replace_keeps_free(s4, '\'', "&apos;"@, '>', 0);
    lemma_replace_keeps_free(s4, '\'', "&apos;"@, '"', 0);
    lemma_replace_keeps_free(s4, '\'', "&apos;"@, '\'', 0);
}

/// Replacing every match of `pat` by text made of `*` alone leaves no match
/// of a `pat` that holds no `*`.
proof fn lemma_masked_has_no_match(s: Seq<char>, pat: Seq<char>, rep: Seq<char>, i: int)
    requires
        0 <= i <= s.len(),
        pat.len() > 0,
        free_of(pat, '*'),
        rep.len() > 0,
        forall|t: int| 0 <= t < rep.len() ==> rep[t] == '*',
    ensures
        forall|j: int| !matches_at(#[trigger] replace_from(s, pat, rep, i), pat, j),
    decreases s.len() - i,
{
    lemma_find_from_some(s, pat, i);
    let r = replace_from(s, pat, rep, i);
    match find_from(s, pat, i) {
        None => {
            assert forall|j: int| !matches_at(r, pat, j) by {
                if matches_at(r, pat, j) {
                    assert(s.subrange(i + j, i + j + pat.len()) =~= r.subrange(j, j + pat.len()));
                    assert(matches_at(s, pat, i + j));
                }
            }
        },
        Some(k) => {
            let a = s.subrange(i, k);
            let n = k + pat.len();
            lemma_masked_has_no_match(s, pat, rep, n);
            let b = replace_from(s, pat, rep, n);
            assert(r == a + rep + b);
            assert forall|j: int| !matches_at(r, pat, j) by {
                if matches_at(r, pat, j) {
                    let w = r.subrange(j, j + pat.len());
                    if j + pat.len() <= a.len() {
                        assert(s.subrange(i + j, i + j + pat.len()) =~= w);
                        assert(matches_at(s, pat, i + j));
                    } else if j < a.len() + rep.len() {
                        let t: int = if j < a.len() { a.len() as int } else { j };
                        assert(r[t] == rep[t - a.len()]);
                        assert(w[t - j] == r[t]);
                        assert(pat[t - j] == '*');
                    } else {
                        let jb = j - a.len() - rep.len();
                        assert(b.subrange(jb, jb + pat.len()) =~= w);
                        assert(matches_at(b, pat, jb));
                    }
                }
            }
        },
    }
}

/// A non-empty secret that holds no `*` never shows in the text redacted
/// with it: each match is masked by `*`, and no match can cross a mask.
pub proof fn law_redacted_hides_secret(value: Seq<char>, secret: Seq<char>)
    requires
        secret.len() > 0,
        free_of(secret, '*'),
    ensures
        !contains(redacted(value, secret), secret),
{
    reveal_strlit("********");
    lemma_masked_has_no_match(value, secret, "********"@, 0);
    assert(forall|j: int| !matches_at(replace_from(value, secret, "********"@, 0), secret, j));
}

} // verus!
