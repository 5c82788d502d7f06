use vstd::prelude::*;

use crate::num::{decimal, fmt_pad2, pad2, parse_unsigned, parse_unsigned_exec};
use crate::paths::{file_name, file_name_exec, laundry_result_id, result_id};
use crate::text::{
    ascii_lower_char, chars_of, contains, contains_exec, find, find_exec, is_ascii_seq, lowercase, slice_vec,
    string_of,
    to_lowercase, trim, trim_vec,
};

verus! {

/// The value of `attr="…"` (or, failing that, `attr='…'`) in a line.
pub open spec fn attr_with_quote(line: Seq<char>, attr: Seq<char>, q: char) -> Option<Seq<char>> {
    let pat = attr + seq!['='] + seq![q];
    match find(line, pat) {
        None => None,
        Some(st) => {
            let rest = line.skip(st + pat.len());
            match find(rest, seq![q]) {
                None => None,
                Some(e) => Some(rest.take(e)),
            }
        },
    }
}

pub open spec fn xml_attribute(line: Seq<char>, attr: Seq<char>) -> Option<Seq<char>> {
    match attr_with_quote(line, attr, '"') {
        Some(v) => Some(v),
        None => attr_with_quote(line, attr, '\''),
    }
}

fn attr_with_quote_exec(line: &Vec<char>, attr: &Vec<char>, q: char) -> (r: Option<Vec<char>>)
    ensures
        match r {
            Some(v) => attr_with_quote(line@, attr@, q) == Some(v@),
            None => attr_with_quote(line@, attr@, q) is None,
        },
{
    let mut pat = slice_vec(attr, 0, attr.len());
    pat.push('=');
    pat.push(q);
    assert(pat@ =~= attr@ + seq!['='] + seq![q]);
    match find_exec(line, &pat) {
        None => None,
        Some(st) => {
            proof {
                crate::text::lemma_find_from_some(line@, pat@, 0);
                assert(st + pat@.len() <= line@.len());
            }
            let plen = pat.len();
            assert(st + plen <= line.len());
            let rest = slice_vec(line, st + plen, line.len());
            assert(rest@ =~= line@.skip(st + pat@.len()));
            let qv = vec![q];
            assert(qv@ =~= seq![q]);
            match find_exec(&rest, &qv) {
                None => None,
                Some(e) => {
                    proof {
                        crate::text::lemma_find_from_some(rest@, qv@, 0);
                    }
                    let v = slice_vec(&rest, 0, e);
                    assert(v@ =~= rest@.take(e as int));
                    Some(v)
                },
            }
        },
    }
}

pub fn xml_attribute_exec(line: &Vec<char>, attr: &Vec<char>) -> (r: Option<Vec<char>>)
    ensures
        match r {
            Some(v) => xml_attribute(line@, attr@) == Some(v@),
            None => xml_attribute(line@, attr@) is None,
        },
{
    match attr_with_quote_exec(line, attr, '"') {
        Some(v) => Some(v),
        None => attr_with_quote_exec(line, attr, '\''),
    }
}

/// The value of an attribute written `attr="value"` or `attr='value'` in one line of XML.
pub fn parse_xml_attribute(line: &str, attr: &str) -> (r: Option<String>)
    ensures
        match r {
            Some(v) => xml_attribute(line@, attr@) == Some(v@),
            None => xml_attribute(line@, attr@) is None,
        },
{
    match xml_attribute_exec(&chars_of(line), &chars_of(attr)) {
        Some(v) => Some(string_of(&v)),
        None => None,
    }
}

/// An attribute's value, or the empty text where the line has none.
pub open spec fn attr_or_empty(line: Seq<char>, attr: Seq<char>) -> Seq<char> {
    match xml_attribute(line, attr) {
        Some(v) => v,
        None => seq![],
    }
}

pub fn attr_or_empty_exec(line: &Vec<char>, attr: &str) -> (r: String)
    ensures
        r@ == attr_or_empty(line@, attr@),
{
    match xml_attribute_exec(line, &chars_of(attr)) {
        Some(v) => string_of(&v),
        None => String::new(),
    }
}

pub open spec fn result_tag() -> Seq<char> {
    "<Result "@
}

/// The first line among the first `n` that opens the `<Result` element.
pub open spec fn first_result_line(lines: Seq<Seq<char>>, n: int) -> Option<int>
    decreases n,
{
    if n <= 0 {
        None
    } else {
        match first_result_line(lines, n - 1) {
            Some(k) => Some(k),
            None => if n - 1 < lines.len() && contains(lines[n - 1], result_tag()) {
                Some(n - 1)
            } else {
                None
            },
        }
    }
}

/// Suite name, version and build number read off the `<Result` line, when one
/// of the first fifty lines holds it; a missing attribute reads as empty.
pub open spec fn suite_info(lines: Seq<Seq<char>>) -> Option<(Seq<char>, Seq<char>, Seq<char>)> {
    match first_result_line(lines, 50) {
        None => None,
        Some(k) => Some((
            attr_or_empty(lines[k], "suite_name"@),
            attr_or_empty(lines[k], "suite_version"@),
            attr_or_empty(lines[k], "suite_build_number"@),
        )),
    }
}

pub open spec fn line_views(lines: Seq<String>) -> Seq<Seq<char>> {
    lines.map_values(|s: String| s@)
}

/// Suite name, version and build from the lines of a `test_result.xml`, read
/// in order; the caller hands over the lines read before any read error.
pub fn suite_info_from_lines(lines: &Vec<String>) -> (r: Option<(String, String, String)>)
    ensures
        match r {
            Some((a, b, c)) => suite_info(line_views(lines@)) == Some((a@, b@, c@)),
            None => suite_info(line_views(lines@)) is None,
        },
{
    let ghost lv = line_views(lines@);
    let tag = chars_of("<Result ");
    let mut i: usize = 0;
    while i < lines.len() && i < 50
        invariant
            i <= lines.len(),
            i <= 50,
            lv == line_views(lines@),
            tag@ == result_tag(),
            first_result_line(lv, i as int) is None,
        decreases lines.len() - i,
    {
        let line = chars_of(lines[i].as_str());
        assert(lv[i as int] == line@);
        if contains_exec(&line, &tag) {
            let name = attr_or_empty_exec(&line, "suite_name");
            let version = attr_or_empty_exec(&line, "suite_version");
            let build = attr_or_empty_exec(&line, "suite_build_number");
            assert(first_result_line(lv, i + 1) == Some(i as int));
            proof {
                lemma_first_result_line_stable(lv, i + 1, 50);
            }
            return Some((name, version, build));
        }
        i = i + 1;
    }
    proof {
        lemma_first_result_line_none(lv, i as int, 50);
    }
    None
}

pub proof fn lemma_first_result_line_stable(lines: Seq<Seq<char>>, n: int, m: int)
    requires
        0 <= n <= m,
        first_result_line(lines, n) is Some,
    ensures
        first_result_line(lines, m) == first_result_line(lines, n),
    decreases m - n,
{
    if m > n {
        lemma_first_result_line_stable(lines, n, m - 1);
    }
}

pub proof fn lemma_first_result_line_none(lines: Seq<Seq<char>>, n: int, m: int)
    requires
        0 <= n <= m,
        first_result_line(lines, n) is None,
        n >= lines.len() || n == m,
    ensures
        first_result_line(lines, m) is None,
    decreases m - n,
{
    if m > n {
        lemma_first_result_line_none(lines, n, m - 1);
    }
}

} // verus!

verus! {

/// The suite a result's `suite_name` names, read from its lower-cased text.
pub open spec fn classify_lower(lower: Seq<char>) -> Option<Seq<char>> {
    if contains(lower, "cts"@) || contains(lower, "compatibility"@) {
        Some("CTS"@)
    } else if contains(lower, "gts"@) || contains(lower, "google"@) {
        Some("GTS"@)
    } else if contains(lower, "sts"@) || contains(lower, "security"@) {
        Some("STS"@)
    } else {
        None
    }
}

/// A suite name that mentions a suite, in any letter case, is read as that
/// suite: text holding `cts` (or `compatibility`) is CTS; otherwise text
/// holding `gts` (or `google`) is GTS; otherwise text holding `sts` (or
/// `security`) is STS. Nothing else is ever named.
pub proof fn law_suite_names_classify(lower: Seq<char>)
    ensures
        contains(lower, "cts"@) ==> classify_lower(lower) == Some("CTS"@),
        contains(lower, "gts"@) && !contains(lower, "cts"@) && !contains(lower, "compatibility"@) ==> classify_lower(
            lower,
        ) == Some("GTS"@),
        contains(lower, "sts"@) && !contains(lower, "cts"@) && !contains(lower, "compatibility"@) && !contains(
            lower,
            "gts"@,
        ) && !contains(lower, "google"@) ==> classify_lower(lower) == Some("STS"@),
        classify_lower(lower) matches Some(s) ==> (s == "CTS"@ || s == "GTS"@ || s == "STS"@),
        classify_lower(lower) is None ==> !contains(lower, "cts"@) && !contains(lower, "gts"@) && !contains(
            lower,
            "sts"@,
        ),
{
}

/// The suite a path or file name hints at, read from its lower-cased text.
pub open spec fn hint_lower(lower: Seq<char>) -> Option<Seq<char>> {
    if contains(lower, "cts"@) {
        Some("CTS"@)
    } else if contains(lower, "gts"@) {
        Some("GTS"@)
    } else if contains(lower, "sts"@) {
        Some("STS"@)
    } else {
        None
    }
}

fn has(s: &Vec<char>, pat: &str) -> (r: bool)
    ensures
        r == contains(s@, pat@),
{
    contains_exec(s, &chars_of(pat))
}

pub fn classify_suite(name: &str) -> (r: Option<String>)
    ensures
        match r {
            Some(s) => classify_lower(lowercase(name@)) == Some(s@),
            None => classify_lower(lowercase(name@)) is None,
        },
        is_ascii_seq(name@) ==> match r {
            Some(s) => classify_lower(name@.map_values(|c: char| ascii_lower_char(c))) == Some(s@),
            None => classify_lower(name@.map_values(|c: char| ascii_lower_char(c))) is None,
        },
{
    let lower = chars_of(to_lowercase(name).as_str());
    if has(&lower, "cts") || has(&lower, "compatibility") {
        Some("CTS".to_string())
    } else if has(&lower, "gts") || has(&lower, "google") {
        Some("GTS".to_string())
    } else if has(&lower, "sts") || has(&lower, "security") {
        Some("STS".to_string())
    } else {
        None
    }
}

fn hint_of(text: &str) -> (r: Option<&'static str>)
    ensures
        match r {
            Some(s) => hint_lower(lowercase(text@)) == Some(s@),
            None => hint_lower(lowercase(text@)) is None,
        },
{
    let lower = chars_of(to_lowercase(text).as_str());
    if has(&lower, "cts") {
        Some("CTS")
    } else if has(&lower, "gts") {
        Some("GTS")
    } else if has(&lower, "sts") {
        Some("STS")
    } else {
        None
    }
}

/// The suite a result directory's path hints at.
pub fn suite_hint_from_path(path: &str) -> (r: Option<String>)
    ensures
        match r {
            Some(s) => hint_lower(lowercase(path@)) == Some(s@),
            None => hint_lower(lowercase(path@)) is None,
        },
{
    match hint_of(path) {
        Some(s) => Some(s.to_string()),
        None => None,
    }
}

/// The suite a log file's name belongs to.
pub fn log_suite_name(filename: &str) -> (r: Option<&'static str>)
    ensures
        match r {
            Some(s) => hint_lower(lowercase(filename@)) == Some(s@),
            None => hint_lower(lowercase(filename@)) is None,
        },
{
    hint_of(filename)
}

/// `HH:MM:SS` for a number of seconds; hours grow past two digits as needed.
pub open spec fn hms(total: nat) -> Seq<char> {
    pad2(decimal(total / 3600)) + seq![':'] + pad2(decimal((total % 3600) / 60)) + seq![':']
        + pad2(decimal(total % 60))
}

pub fn format_duration_hms(total: u64) -> (r: String)
    ensures
        r@ == hms(total as nat),
{
    let mut v = fmt_pad2(total / 3600);
    v.push(':');
    let mut m = fmt_pad2((total % 3600) / 60);
    v.append(&mut m);
    v.push(':');
    let mut s = fmt_pad2(total % 60);
    v.append(&mut s);
    let r = string_of(&v);
    assert(r@ =~= hms(total as nat));
    r
}

/// The same rendering, under the name the runner's status lines use.
pub fn format_duration(total: u64) -> (r: String)
    ensures
        r@ == hms(total as nat),
{
    format_duration_hms(total)
}

/// How long a result ran, from its start and end in milliseconds; `-` when
/// either is missing or the end comes first.
pub open spec fn xml_duration(start_ms: Option<u64>, end_ms: Option<u64>) -> Seq<char> {
    match (start_ms, end_ms) {
        (Some(s), Some(e)) => if e >= s {
            hms(((e - s) / 1000) as nat)
        } else {
            seq!['-']
        },
        _ => seq!['-'],
    }
}

pub fn format_xml_duration(start_ms: Option<u64>, end_ms: Option<u64>) -> (r: String)
    ensures
        r@ == xml_duration(start_ms, end_ms),
{
    match (start_ms, end_ms) {
        (Some(s), Some(e)) => {
            if e >= s {
                return format_duration_hms((e - s) / 1000);
            }
        },
        _ => {},
    }
    let mut r = String::new();
    crate::text::push_char(&mut r, '-');
    assert(r@ =~= seq!['-']);
    r
}

} // verus!

verus! {

pub open spec fn summary_tag() -> Seq<char> {
    "<Summary "@
}

pub open spec fn parsed_u64(v: Option<Seq<char>>) -> Option<u64> {
    match v {
        Some(t) => match parse_unsigned(t, u64::MAX as nat) {
            Some(x) => Some(x as u64),
            None => None,
        },
        None => None,
    }
}

pub open spec fn parsed_or_zero(v: Option<Seq<char>>) -> nat {
    match parsed_u64(v) {
        Some(x) => x as nat,
        None => 0,
    }
}

/// What a scan of a result file has gathered: whether a `<Result` line was
/// seen, its suite name, suite version, command line arguments, start and
/// end, and the pass and fail counts of the last `<Summary` line.
pub type ScanState = (bool, Seq<char>, Seq<char>, Seq<char>, Option<u64>, Option<u64>, nat, nat);

pub open spec fn scan_step(st: ScanState, l: Seq<char>) -> ScanState {
    if contains(l, result_tag()) {
        (true, attr_or_empty(l, "suite_name"@), attr_or_empty(l, "suite_version"@),
            attr_or_empty(l, "command_line_args"@), parsed_u64(xml_attribute(l, "start"@)),
            parsed_u64(xml_attribute(l, "end"@)), st.6, st.7)
    } else if contains(l, summary_tag()) {
        (st.0, st.1, st.2, st.3, st.4, st.5, parsed_or_zero(xml_attribute(l, "pass"@)),
            parsed_or_zero(xml_attribute(l, "failed"@)))
    } else {
        st
    }
}

pub open spec fn scan_lines(lines: Seq<Seq<char>>, n: int) -> ScanState
    decreases n,
{
    if n <= 0 || n > lines.len() {
        (false, seq![], seq![], seq![], None, None, 0, 0)
    } else {
        scan_step(scan_lines(lines, n - 1), lines[n - 1])
    }
}

/// The row a laundry result directory contributes: id, suite, test case,
/// sub test cases, time, total, passed, failed and suite version; none when
/// the file has no `<Result` line or the suite cannot be told.
pub type InfoRow = (Seq<char>, Seq<char>, Seq<char>, Seq<char>, Seq<char>, nat, nat, nat, Seq<char>);

pub open spec fn laundry_info(root: Seq<char>, dir: Seq<char>, lines: Seq<Seq<char>>) -> Option<InfoRow> {
    let st = scan_lines(lines, lines.len() as int);
    let suite = match classify_lower(lowercase(st.1)) {
        Some(s) => Some(s),
        None => hint_lower(lowercase(dir)),
    };
    if !st.0 || suite is None {
        None
    } else {
        let s = suite->0;
        let name = match file_name(dir) {
            Some(n) => n,
            None => s,
        };
        let args = trim(st.3);
        Some((
            result_id(root, dir),
            s,
            s + seq![' '] + name,
            if args.len() == 0 { seq!['-'] } else { args },
            xml_duration(st.4, st.5),
            st.6 + st.7,
            st.6,
            st.7,
            st.2,
        ))
    }
}

/// One selectable laundry result, as the preview lists it.
pub struct LaundryResultInfo {
    pub id: String,
    pub suite: String,
    pub testcase: String,
    pub subtestcases: String,
    pub status: String,
    pub time: String,
    pub total: u64,
    pub passed: u64,
    pub failed: u64,
    pub suite_version: String,
    pub result_dir: String,
}

pub open spec fn info_is(info: LaundryResultInfo, row: InfoRow) -> bool {
    &&& info.id@ == row.0
    &&& info.suite@ == row.1
    &&& info.testcase@ == row.2
    &&& info.subtestcases@ == row.3
    &&& info.status@ == "Ready"@
    &&& info.time@ == row.4
    &&& info.total as nat == row.5
    &&& info.passed as nat == row.6
    &&& info.failed as nat == row.7
    &&& info.suite_version@ == row.8
    &&& info.result_dir@ == row.0
}

fn parse_attr_u64(line: &Vec<char>, attr: &str) -> (r: Option<u64>)
    ensures
        r == parsed_u64(xml_attribute(line@, attr@)),
{
    match xml_attribute_exec(line, &chars_of(attr)) {
        Some(v) => parse_unsigned_exec(&v, 18446744073709551615u64),
        None => None,
    }
}

fn scan_exec(lines: &Vec<String>) -> (r: (bool, String, String, String, Option<u64>, Option<u64>, u64, u64))
    ensures
        ({
            let st = scan_lines(line_views(lines@), lines.len() as int);
            &&& r.0 == st.0 && r.1@ == st.1 && r.2@ == st.2 && r.3@ == st.3
            &&& r.4 == st.4 && r.5 == st.5 && r.6 as nat == st.6 && r.7 as nat == st.7
        }),
{
    let ghost lv = line_views(lines@);
    let rtag = chars_of("<Result ");
    let stag = chars_of("<Summary ");
    let mut saw = false;
    let mut name = String::new();
    let mut version = String::new();
    let mut args = String::new();
    let mut start: Option<u64> = None;
    let mut end: Option<u64> = None;
    let mut passed: u64 = 0;
    let mut failed: u64 = 0;
    let mut i: usize = 0;
    while i < lines.len()
        invariant
            i <= lines.len(),
            lv == line_views(lines@),
            rtag@ == result_tag(),
            stag@ == summary_tag(),
            ({
                let st = scan_lines(lv, i as int);
                &&& saw == st.0 && name@ == st.1 && version@ == st.2 && args@ == st.3
                &&& start == st.4 && end == st.5 && passed as nat == st.6 && failed as nat == st.7
            }),
        decreases lines.len() - i,
    {
        let line = chars_of(lines[i].as_str());
        assert(lv[i as int] == line@);
        if contains_exec(&line, &rtag) {
            saw = true;
            name = attr_or_empty_exec(&line, "suite_name");
            version = attr_or_empty_exec(&line, "suite_version");
            args = attr_or_empty_exec(&line, "command_line_args");
            start = parse_attr_u64(&line, "start");
            end = parse_attr_u64(&line, "end");
        } else if contains_exec(&line, &stag) {
            passed = match parse_attr_u64(&line, "pass") {
                Some(v) => v,
                None => 0,
            };
            failed = match parse_attr_u64(&line, "failed") {
                Some(v) => v,
                None => 0,
            };
        }
        i = i + 1;
    }
    (saw, name, version, args, start, end, passed, failed)
}

/// Whether the pass and fail counts of a result file add up within `u64`.
pub fn laundry_counts_fit(lines: &Vec<String>) -> (r: bool)
    ensures
        r == ({
            let st = scan_lines(line_views(lines@), lines.len() as int);
            st.6 + st.7 <= u64::MAX
        }),
{
    let st = scan_exec(lines);
    st.6 <= u64::MAX - st.7
}

/// Reads one laundry result from the lines of its `test_result.xml`.
pub fn parse_laundry_result_info(root: &str, result_dir: &str, lines: &Vec<String>) -> (r: Option<LaundryResultInfo>)
    requires
        ({
            let st = scan_lines(line_views(lines@), lines.len() as int);
            st.6 + st.7 <= u64::MAX
        }),
    ensures
        match r {
            Some(info) => laundry_info(root@, result_dir@, line_views(lines@)) matches Some(row) && info_is(info, row),
            None => laundry_info(root@, result_dir@, line_views(lines@)) is None,
        },
{
    let st = scan_exec(lines);
    if !st.0 {
        return None;
    }
    let suite = match classify_suite(st.1.as_str()) {
        Some(s) => s,
        None => match suite_hint_from_path(result_dir) {
            Some(s) => s,
            None => return None,
        },
    };
    let dir = chars_of(result_dir);
    let name = match file_name_exec(&dir) {
        Some(n) => string_of(&n),
        None => suite.clone(),
    };
    let id = laundry_result_id(root, result_dir);
    let mut testcase = suite.clone();
    testcase.append(" ");
    testcase.append(name.as_str());
    let args = trim_vec(&chars_of(st.3.as_str()));
    let subtestcases = if args.len() == 0 { "-".to_string() } else { string_of(&args) };
    let time = format_xml_duration(st.4, st.5);
    proof {
        reveal_strlit(" ");
        reveal_strlit("-");
    }
    let info = LaundryResultInfo {
        id: id.clone(),
        suite,
        testcase,
        subtestcases,
        status: "Ready".to_string(),
        time,
        total: st.6 + st.7,
        passed: st.6,
        failed: st.7,
        suite_version: st.2,
        result_dir: id,
    };
    assert(info.testcase@ =~= info.suite@ + seq![' '] + name@);
    let ghost row = laundry_info(root@, result_dir@, line_views(lines@));
    assert(row is Some);
    let ghost rw = row->0;
    assert(info.id@ == rw.0);
    assert(info.suite@ == rw.1);
    assert(info.testcase@ == rw.2);
    assert(info.subtestcases@ == rw.3);
    assert(info.time@ == rw.4);
    assert(info.total as nat == rw.5);
    Some(info)
}

} // verus!
