use vstd::prelude::*;
use vstd::utf8::{encode_utf8, is_char_boundary};

use crate::strmap::StrMap;
use crate::text::{
    chars_of, ends_with, ends_with_exec, is_ascii_seq, lines, lines_exec, slice_vec, split_char,
    split_char_exec, split_once, split_once_exec, starts_with, string_of, trim, trim_vec, views,
    words, words_exec,
};

verus! {

/// Trailing copies of `c` removed.
pub open spec fn trim_end_char(s: Seq<char>, c: char) -> Seq<char>
    decreases s.len(),
{
    if s.len() > 0 && s.last() == c {
        trim_end_char(s.drop_last(), c)
    } else {
        s
    }
}

pub open spec fn prop_separator() -> Seq<char> {
    seq![']', ':', ' ', '[']
}

/// A `getprop` line `[key]: [value]`: the key, and the value without its
/// closing bracket (kept where the line lacks one).
pub open spec fn getprop_pair(line: Seq<char>) -> Option<(Seq<char>, Seq<char>)> {
    let t = trim_end_char(trim(line), '\r');
    if t.len() == 0 || t[0] != '[' {
        None
    } else {
        match split_once(t.drop_first(), prop_separator()) {
            None => None,
            Some((key, rest)) => Some((key, if rest.len() > 0 && rest.last() == ']' { rest.drop_last() } else { rest })),
        }
    }
}

pub fn getprop_pair_exec(line: &Vec<char>) -> (r: Option<(Vec<char>, Vec<char>)>)
    ensures
        match r {
            Some((k, v)) => getprop_pair(line@) == Some((k@, v@)),
            None => getprop_pair(line@) is None,
        },
{
    let mut t = trim_vec(line);
    while t.len() > 0 && t[t.len() - 1] == '\r'
        invariant
            trim_end_char(trim(line@), '\r') == trim_end_char(t@, '\r'),
        decreases t.len(),
    {
        let ghost before = t@;
        t.pop();
        assert(t@ =~= before.drop_last());
    }
    if t.len() == 0 || t[0] != '[' {
        return None;
    }
    let body = slice_vec(&t, 1, t.len());
    assert(body@ =~= t@.drop_first());
    let sep = vec![']', ':', ' ', '['];
    assert(sep@ =~= prop_separator());
    match split_once_exec(&body, &sep) {
        None => None,
        Some((key, rest)) => {
            let mut value = rest;
            if value.len() > 0 && value[value.len() - 1] == ']' {
                let ghost before = value@;
                value.pop();
                assert(value@ =~= before.drop_last());
            }
            Some((key, value))
        },
    }
}

pub fn parse_getprop_line(line: &str) -> (r: Option<(String, String)>)
    ensures
        match r {
            Some((k, v)) => getprop_pair(line@) == Some((k@, v@)),
            None => getprop_pair(line@) is None,
        },
{
    match getprop_pair_exec(&chars_of(line)) {
        Some((k, v)) => Some((string_of(&k), string_of(&v))),
        None => None,
    }
}

/// The properties `getprop` printed, the later of two lines for a key winning.
pub open spec fn props_from_lines(ls: Seq<Seq<char>>) -> Map<Seq<char>, Seq<char>>
    decreases ls.len(),
{
    if ls.len() == 0 {
        Map::empty()
    } else {
        let m = props_from_lines(ls.drop_last());
        match getprop_pair(ls.last()) {
            Some((k, v)) => m.insert(k, v),
            None => m,
        }
    }
}

pub open spec fn string_map_view(m: Map<Seq<char>, String>) -> Map<Seq<char>, Seq<char>> {
    m.map_values(|v: String| v@)
}

/// The property map of `adb shell getprop` output.
pub fn device_props_from_output(output: &str) -> (m: StrMap<String>)
    ensures
        string_map_view(m.view()) == props_from_lines(lines(output@)),
{
    let ls = lines_exec(&chars_of(output));
    let mut m: StrMap<String> = StrMap::new();
    let mut i: usize = 0;
    assert(string_map_view(m.view()) =~= props_from_lines(views(ls@).take(0)));
    while i < ls.len()
        invariant
            i <= ls.len(),
            string_map_view(m.view()) == props_from_lines(views(ls@).take(i as int)),
        decreases ls.len() - i,
    {
        assert(views(ls@).take(i + 1).drop_last() =~= views(ls@).take(i as int));
        assert(views(ls@).take(i + 1).last() == ls@[i as int]@);
        match getprop_pair_exec(&ls[i]) {
            Some((k, v)) => {
                let ghost before = m.view();
                let vs = string_of(&v);
                m.insert(string_of(&k), vs);
                assert(string_map_view(m.view()) =~= string_map_view(before).insert(k@, v@));
            },
            None => {},
        }
        i = i + 1;
    }
    assert(views(ls@).take(ls.len() as int) =~= views(ls@));
    m
}

/// A property's value, or the empty text when it is not set.
pub open spec fn prop_value(m: Map<Seq<char>, Seq<char>>, key: Seq<char>) -> Seq<char> {
    if m.contains_key(key) { m[key] } else { seq![] }
}

pub fn prop(map: &StrMap<String>, key: &str) -> (r: String)
    ensures
        r@ == prop_value(string_map_view(map.view()), key@),
{
    match map.get(key) {
        Some(v) => v.clone(),
        None => String::new(),
    }
}

/// `key:value` among the words from index `i` on: the value of the first word named `key`.
pub open spec fn token_from(ws: Seq<Seq<char>>, key: Seq<char>, i: int) -> Seq<char>
    decreases ws.len() - i,
{
    if i < 0 || i >= ws.len() {
        seq![]
    } else {
        match split_once(ws[i], seq![':']) {
            Some((name, value)) => if name == key {
                value
            } else {
                token_from(ws, key, i + 1)
            },
            None => token_from(ws, key, i + 1),
        }
    }
}

pub open spec fn token_value_spec(line: Seq<char>, key: Seq<char>) -> Seq<char> {
    token_from(words(line), key, 0)
}

/// The value of the first `key:value` word of a line (empty when none).
pub fn token_value(line: &str, key: &str) -> (r: String)
    ensures
        r@ == token_value_spec(line@, key@),
{
    let ws = words_exec(&chars_of(line));
    let k = chars_of(key);
    let colon = vec![':'];
    assert(colon@ =~= seq![':']);
    let mut i: usize = 0;
    while i < ws.len()
        invariant
            i <= ws.len(),
            colon@ == seq![':'],
            views(ws@) == words(line@),
            k@ == key@,
            token_from(views(ws@), k@, 0) == token_from(views(ws@), k@, i as int),
        decreases ws.len() - i,
    {
        assert(views(ws@)[i as int] == ws@[i as int]@);
        match split_once_exec(&ws[i], &colon) {
            Some((name, value)) => {
                if crate::text::eq_chars(&name, &k) {
                    assert(split_once(views(ws@)[i as int], seq![':']) == Some((name@, value@)));
                    assert(token_from(views(ws@), k@, i as int) == value@);
                    return string_of(&value);
                }
            },
            None => {},
        }
        i = i + 1;
    }
    String::new()
}

} // verus!

verus! {

pub open spec fn str_views(v: Seq<String>) -> Seq<Seq<char>> {
    v.map_values(|s: String| s@)
}

/// The first value from index `i` on that is not blank, or the empty text.
pub open spec fn first_non_blank(vs: Seq<Seq<char>>, i: int) -> Seq<char>
    decreases vs.len() - i,
{
    if i < 0 || i >= vs.len() {
        seq![]
    } else if trim(vs[i]).len() > 0 {
        vs[i]
    } else {
        first_non_blank(vs, i + 1)
    }
}

pub fn first_non_empty(values: &Vec<String>) -> (r: String)
    ensures
        r@ == first_non_blank(str_views(values@), 0),
{
    let mut i: usize = 0;
    while i < values.len()
        invariant
            i <= values.len(),
            first_non_blank(str_views(values@), 0) == first_non_blank(str_views(values@), i as int),
        decreases values.len() - i,
    {
        assert(str_views(values@)[i as int] == values@[i as int]@);
        if !crate::text::is_blank(&chars_of(values[i].as_str())) {
            return values[i].clone();
        }
        i = i + 1;
    }
    String::new()
}

/// The major Android release from `ro.build.version.release` (`16` when blank).
pub open spec fn android_major_of(value: Seq<char>) -> Seq<char> {
    let major = trim(split_char(value, '.')[0]);
    if major.len() == 0 { seq!['1', '6'] } else { major }
}

pub fn android_major(value: &str) -> (r: String)
    ensures
        r@ == android_major_of(value@),
{
    let parts = split_char_exec(&chars_of(value), '.');
    assert(views(parts@)[0] == parts@[0]@);
    let major = trim_vec(&parts[0]);
    if major.len() == 0 {
        let r = vec!['1', '6'];
        assert(r@ =~= seq!['1', '6']);
        string_of(&r)
    } else {
        string_of(&major)
    }
}

/// The month of a security patch level such as `2025-06-01`: its bytes 5 to 7,
/// or `01` when it is shorter than seven bytes.
pub open spec fn patch_month_bytes(spl: Seq<char>) -> Seq<u8> {
    if encode_utf8(spl).len() >= 7 {
        encode_utf8(spl).subrange(5, 7)
    } else {
        seq![48u8, 49u8]
    }
}

pub fn security_patch_month(spl: &str) -> (r: String)
    requires
        encode_utf8(spl@).len() >= 7 ==> is_char_boundary(encode_utf8(spl@), 5) && is_char_boundary(encode_utf8(spl@), 7),
    ensures
        encode_utf8(r@) == patch_month_bytes(spl@),
{
    let byte_len = spl.as_bytes().len();
    if byte_len >= 7 {
        let (_, tail) = spl.split_at(5);
        proof {
            assert(encode_utf8(tail@) =~= encode_utf8(spl@).subrange(5, encode_utf8(spl@).len() as int));
            let bytes = encode_utf8(spl@);
            let tb = encode_utf8(tail@);
            vstd::utf8::encode_utf8_valid_utf8(spl@);
            vstd::utf8::valid_utf8_split(bytes, 5);
            if bytes.len() == 7 {
                vstd::utf8::is_char_boundary_start_end_of_seq(tb);
                assert(tb.len() == 2);
            } else {
                vstd::utf8::is_char_boundary_iff_not_is_continuation_byte(bytes, 7);
                vstd::utf8::is_char_boundary_iff_not_is_continuation_byte(tb, 2);
                assert(tb[2] == bytes[7]);
            }
            assert(is_char_boundary(tb, 2));
        }
        let (month, _) = tail.split_at(2);
        let r = month.to_string();
        assert(r@ == month@);
        assert(encode_utf8(month@) =~= encode_utf8(spl@).subrange(5, encode_utf8(spl@).len() as int).subrange(0, 2));
        assert(encode_utf8(month@) =~= encode_utf8(spl@).subrange(5, 7));
        assert(encode_utf8(r@) == patch_month_bytes(spl@));
        r
    } else {
        let r = "01".to_string();
        proof {
            reveal_strlit("01");
            assert(r@ =~= seq!['0', '1']);
            assert(vstd::utf8::is_ascii_chars(r@));
            vstd::utf8::is_ascii_chars_encode_utf8(r@);
            assert(r@[0] as u8 == 48u8);
            assert(r@[1] as u8 == 49u8);
            assert(encode_utf8(r@) =~= seq![48u8, 49u8]);
            assert(encode_utf8(r@) == patch_month_bytes(spl@));
        }
        r
    }
}

} // verus!

verus! {

pub open spec fn is_ip_text(s: Seq<char>) -> bool {
    forall|i: int| 0 <= i < s.len() ==> crate::text::is_digit(#[trigger] s[i]) || s[i] == '.'
}

/// A word `addr/24` or `addr/32` gives `addr`.
pub open spec fn ip_candidate(part: Seq<char>) -> Option<Seq<char>> {
    if ends_with(part, "/24"@) {
        Some(part.take(part.len() - 3))
    } else if ends_with(part, "/32"@) {
        Some(part.take(part.len() - 3))
    } else {
        None
    }
}

/// The first address among the words from `i` on that is digits and dots only.
pub open spec fn ip_from(ws: Seq<Seq<char>>, i: int) -> Seq<char>
    decreases ws.len() - i,
{
    if i < 0 || i >= ws.len() {
        seq![]
    } else {
        match ip_candidate(ws[i]) {
            Some(ip) => if is_ip_text(ip) { ip } else { ip_from(ws, i + 1) },
            None => ip_from(ws, i + 1),
        }
    }
}

/// The Wi-Fi address in `ip -f inet addr show wlan0` output (empty when none).
pub fn device_ip_from_output(output: &str) -> (r: String)
    ensures
        r@ == ip_from(words(output@), 0),
{
    let ws = words_exec(&chars_of(output));
    let s24 = chars_of("/24");
    let s32 = chars_of("/32");
    let mut i: usize = 0;
    while i < ws.len()
        invariant
            i <= ws.len(),
            views(ws@) == words(output@),
            s24@ == "/24"@,
            s32@ == "/32"@,
            ip_from(views(ws@), 0) == ip_from(views(ws@), i as int),
        decreases ws.len() - i,
    {
        let part = &ws[i];
        assert(views(ws@)[i as int] == part@);
        proof {
            reveal_strlit("/24");
            reveal_strlit("/32");
        }
        let cand = if ends_with_exec(part, &s24) || ends_with_exec(part, &s32) {
            Some(slice_vec(part, 0, part.len() - 3))
        } else {
            None
        };
        match cand {
            Some(ip) => {
                assert(ip@ =~= part@.take(part@.len() - 3));
                let mut k: usize = 0;
                let mut ok = true;
                while k < ip.len()
                    invariant
                        k <= ip.len(),
                        ok == (forall|j: int| 0 <= j < k ==> crate::text::is_digit(#[trigger] ip@[j]) || ip@[j] == '.'),
                    decreases ip.len() - k,
                {
                    if !(crate::num::is_digit_exec(ip[k]) || ip[k] == '.') {
                        ok = false;
                    }
                    k = k + 1;
                }
                if ok {
                    return string_of(&ip);
                }
            },
            None => {},
        }
        i = i + 1;
    }
    String::new()
}

pub open spec fn userdebug() -> Seq<char> {
    "userdebug"@
}

/// A build is userdebug when its fingerprint or build type says so, in any case.
pub open spec fn is_userdebug_build_spec(fingerprint: Seq<char>, build_type: Seq<char>) -> bool {
    crate::text::contains(crate::text::lowercase(fingerprint), userdebug())
        || crate::text::contains(crate::text::lowercase(build_type), userdebug())
}

pub fn is_userdebug_build(fingerprint: &str, build_type: &str) -> (r: bool)
    ensures
        r == is_userdebug_build_spec(fingerprint@, build_type@),
{
    let fp = chars_of(crate::text::to_lowercase(fingerprint).as_str());
    let pat = chars_of("userdebug");
    if crate::text::contains_exec(&fp, &pat) {
        return true;
    }
    let bt = chars_of(crate::text::to_lowercase(build_type).as_str());
    crate::text::contains_exec(&bt, &pat)
}

/// Serial and state of an `adb devices -l` line, skipping the header,
/// daemon notices and lines with fewer than two words.
pub open spec fn device_line(line: Seq<char>) -> Option<(Seq<char>, Seq<char>)> {
    let t = trim(line);
    if t.len() == 0 || starts_with(t, "List of devices"@) || starts_with(t, "*"@) {
        None
    } else {
        let ws = words(t);
        if ws.len() < 2 {
            None
        } else {
            Some((ws[0], ws[1]))
        }
    }
}

pub fn parse_device_line(line: &str) -> (r: Option<(String, String)>)
    ensures
        match r {
            Some((serial, state)) => device_line(line@) == Some((serial@, state@)),
            None => device_line(line@) is None,
        },
{
    let t = trim_vec(&chars_of(line));
    if t.len() == 0 || crate::text::starts_with_exec(&t, &chars_of("List of devices"))
        || crate::text::starts_with_exec(&t, &chars_of("*")) {
        return None;
    }
    let ws = words_exec(&t);
    if ws.len() < 2 {
        return None;
    }
    assert(views(ws@)[0] == ws@[0]@);
    assert(views(ws@)[1] == ws@[1]@);
    Some((string_of(&ws[0]), string_of(&ws[1])))
}

} // verus!
