use vstd::prelude::*;

use crate::num::{is_digit_exec, parse_unsigned, parse_unsigned_exec};
use crate::text::{
    chars_of, contains, contains_exec, is_digit, join_sep, lines, lines_exec, slice_vec, split_once,
    split_once_exec, string_of, text_views, trim, trim_vec, views,
};

verus! {

/// The first line from index `i` on that contains `needle`.
pub open spec fn first_line_with(ls: Seq<Seq<char>>, needle: Seq<char>, i: int) -> Option<int>
    decreases ls.len() - i,
{
    if i < 0 || i >= ls.len() {
        None
    } else if contains(ls[i], needle) {
        Some(i)
    } else {
        first_line_with(ls, needle, i + 1)
    }
}

pub proof fn lemma_first_line_with(ls: Seq<Seq<char>>, needle: Seq<char>, i: int)
    requires
        0 <= i,
    ensures
        first_line_with(ls, needle, i) matches Some(k) ==> i <= k < ls.len() && contains(ls[k], needle),
    decreases ls.len() - i,
{
    if i < ls.len() && !contains(ls[i], needle) {
        lemma_first_line_with(ls, needle, i + 1);
    }
}

fn first_line_with_exec(ls: &Vec<Vec<char>>, needle: &Vec<char>, start: usize) -> (r: Option<usize>)
    ensures
        match r {
            Some(k) => first_line_with(views(ls@), needle@, start as int) == Some(k as int) && k < ls.len(),
            None => first_line_with(views(ls@), needle@, start as int) is None,
        },
{
    let mut i = start;
    while i < ls.len()
        invariant
            start <= i,
            first_line_with(views(ls@), needle@, start as int) == first_line_with(views(ls@), needle@, i as int),
        decreases ls.len() - i,
    {
        assert(views(ls@)[i as int] == ls@[i as int]@);
        if contains_exec(&ls[i], needle) {
            return Some(i);
        }
        i = i + 1;
    }
    None
}

/// The value on the first line holding `needle`: what follows its first
/// `:`, trimmed, or the whole line trimmed when it has none.
pub open spec fn summary_value_spec(block: Seq<char>, needle: Seq<char>) -> Option<Seq<char>> {
    match first_line_with(lines(block), needle, 0) {
        None => None,
        Some(i) => match split_once(lines(block)[i], ":"@) {
            Some((_, v)) => Some(trim(v)),
            None => Some(trim(lines(block)[i])),
        },
    }
}

pub fn summary_value(block: &str, needle: &str) -> (r: Option<String>)
    ensures
        match r {
            Some(v) => summary_value_spec(block@, needle@) == Some(v@),
            None => summary_value_spec(block@, needle@) is None,
        },
{
    let ls = lines_exec(&chars_of(block));
    match first_line_with_exec(&ls, &chars_of(needle), 0) {
        None => None,
        Some(i) => {
            assert(views(ls@)[i as int] == ls@[i as int]@);
            match split_once_exec(&ls[i], &chars_of(":")) {
                Some((_, v)) => Some(string_of(&trim_vec(&v))),
                None => Some(string_of(&trim_vec(&ls[i]))),
            }
        },
    }
}

/// Index of the first ASCII digit at or after `i` (or the length).
pub open spec fn first_digit_from(s: Seq<char>, i: int) -> int
    decreases s.len() - i,
{
    if 0 <= i < s.len() && !is_digit(s[i]) {
        first_digit_from(s, i + 1)
    } else {
        i
    }
}

/// End of the run of ASCII digits that starts at `i`.
pub open spec fn digit_run_end(s: Seq<char>, i: int) -> int
    decreases s.len() - i,
{
    if 0 <= i < s.len() && is_digit(s[i]) {
        digit_run_end(s, i + 1)
    } else {
        i
    }
}

pub proof fn lemma_digit_scan(s: Seq<char>, i: int)
    requires
        0 <= i <= s.len(),
    ensures
        i <= first_digit_from(s, i) <= s.len(),
        i <= digit_run_end(s, i) <= s.len(),
    decreases s.len() - i,
{
    if i < s.len() {
        lemma_digit_scan(s, i + 1);
    }
}

/// The first run of ASCII digits of a line (the first non-empty piece when
/// it is split at every other character).
pub open spec fn first_digits(s: Seq<char>) -> Option<Seq<char>> {
    let a = first_digit_from(s, 0);
    if a >= s.len() {
        None
    } else {
        Some(s.subrange(a, digit_run_end(s, a)))
    }
}

/// The first number on the first line holding `needle`, when it fits a `u64`.
pub open spec fn number_after_spec(block: Seq<char>, needle: Seq<char>) -> Option<u64> {
    match first_line_with(lines(block), needle, 0) {
        None => None,
        Some(i) => match first_digits(lines(block)[i]) {
            None => None,
            Some(d) => match parse_unsigned(d, u64::MAX as nat) {
                Some(n) => Some(n as u64),
                None => None,
            },
        },
    }
}

pub fn number_after(block: &str, needle: &str) -> (r: Option<u64>)
    ensures
        r == number_after_spec(block@, needle@),
{
    let ls = lines_exec(&chars_of(block));
    match first_line_with_exec(&ls, &chars_of(needle), 0) {
        None => None,
        Some(i) => {
            assert(views(ls@)[i as int] == ls@[i as int]@);
            let line = &ls[i];
            let mut a: usize = 0;
            while a < line.len() && !is_digit_exec(line[a])
                invariant
                    a <= line.len(),
                    first_digit_from(line@, 0) == first_digit_from(line@, a as int),
                decreases line.len() - a,
            {
                a = a + 1;
            }
            if a >= line.len() {
                return None;
            }
            let mut b = a;
            while b < line.len() && is_digit_exec(line[b])
                invariant
                    a <= b <= line.len(),
                    digit_run_end(line@, a as int) == digit_run_end(line@, b as int),
                decreases line.len() - b,
            {
                b = b + 1;
            }
            let d = slice_vec(line, a, b);
            match parse_unsigned_exec(&d, u64::MAX) {
                Some(n) => Some(n),
                None => None,
            }
        },
    }
}

/// The totals of one suite run, read from its log.
pub struct SuiteSummary {
    pub run_id: String,
    pub test_type: String,
    pub suite: String,
    pub devices: String,
    pub run_time: String,
    pub modules: String,
    pub total: u64,
    pub passed: u64,
    pub failed: u64,
}

pub open spec fn summary_marker() -> Seq<char> {
    "=============== Summary ==============="@
}

pub open spec fn summary_rule() -> Seq<char> {
    "============================================"@
}

/// The lines of tradefed's summary: from the first line holding the
/// summary marker through the first rule line from there on (or the end).
pub open spec fn summary_block(ls: Seq<Seq<char>>) -> Seq<Seq<char>> {
    match first_line_with(ls, summary_marker(), 0) {
        None => seq![],
        Some(s) => match first_line_with(ls, summary_rule(), s) {
            Some(e) => ls.subrange(s, e + 1),
            None => ls.subrange(s, ls.len() as int),
        },
    }
}

pub open spec fn or_na(v: Option<Seq<char>>) -> Seq<char> {
    match v {
        Some(s) => s,
        None => "N/A"@,
    }
}

pub open spec fn or_zero(v: Option<u64>) -> u64 {
    match v {
        Some(n) => n,
        None => 0,
    }
}

fn value_or_na(v: Option<String>) -> (r: String)
    ensures
        r@ == or_na(match v {
            Some(s) => Some(s@),
            None => None,
        }),
{
    match v {
        Some(s) => s,
        None => "N/A".to_string(),
    }
}

/// The summary of a suite log: run time and modules (`N/A` when missing),
/// and the total, passed and failed counts (0 when missing), read from its
/// summary block.
pub fn parse_summary(content: &str, suite: &str, devices: &str, run_id: &str, test_type: &str) -> (r: SuiteSummary)
    ensures
        r.run_id@ == run_id@,
        r.test_type@ == test_type@,
        r.suite@ == suite@,
        r.devices@ == devices@,
        r.run_time@ == or_na(summary_value_spec(join_sep(summary_block(lines(content@)), "\n"@), "Total Run time:"@)),
        r.modules@ == or_na(summary_value_spec(join_sep(summary_block(lines(content@)), "\n"@), "modules completed"@)),
        r.total == or_zero(number_after_spec(join_sep(summary_block(lines(content@)), "\n"@), "Total Tests"@)),
        r.passed == or_zero(number_after_spec(join_sep(summary_block(lines(content@)), "\n"@), "PASSED"@)),
        r.failed == or_zero(number_after_spec(join_sep(summary_block(lines(content@)), "\n"@), "FAILED"@)),
{
    let ls = lines_exec(&chars_of(content));
    let ghost lv = views(ls@);
    let mut block: Vec<String> = Vec::new();
    match first_line_with_exec(&ls, &chars_of("=============== Summary ==============="), 0) {
        None => {
            assert(text_views(block@) =~= summary_block(lv));
        },
        Some(s) => {
            proof {
                lemma_first_line_with(lv, summary_rule(), s as int);
            }
            let end = match first_line_with_exec(&ls, &chars_of("============================================"), s) {
                Some(e) => e + 1,
                None => ls.len(),
            };
            let mut i = s;
            while i < end
                invariant
                    s <= i <= end <= ls.len(),
                    lv == views(ls@),
                    text_views(block@) == lv.subrange(s as int, i as int),
                decreases end - i,
            {
                let ghost before = block@;
                assert(lv[i as int] == ls@[i as int]@);
                let t = string_of(&ls[i]);
                block.push(t);
                assert(text_views(block@) =~= text_views(before).push(lv[i as int]));
                assert(lv.subrange(s as int, i + 1) =~= lv.subrange(s as int, i as int).push(lv[i as int]));
                i = i + 1;
            }
            assert(text_views(block@) =~= summary_block(lv));
        },
    }
    let joined = crate::text::join_strings(&block, "\n");
    let total = number_after(joined.as_str(), "Total Tests");
    let passed = number_after(joined.as_str(), "PASSED");
    let failed = number_after(joined.as_str(), "FAILED");
    SuiteSummary {
        run_id: run_id.to_string(),
        test_type: test_type.to_string(),
        suite: suite.to_string(),
        devices: devices.to_string(),
        run_time: value_or_na(summary_value(joined.as_str(), "Total Run time:")),
        modules: value_or_na(summary_value(joined.as_str(), "modules completed")),
        total: match total {
            Some(n) => n,
            None => 0,
        },
        passed: match passed {
            Some(n) => n,
            None => 0,
        },
        failed: match failed {
            Some(n) => n,
            None => 0,
        },
    }
}

} // verus!
