use vstd::prelude::*;

use crate::order::{index_ints, is_stable_key_order, key_views, stable_key_order};
use crate::paths::{laundry_result_id, result_id};
use crate::registry::{contains_string, opt_view};
use crate::results::{LaundryResultInfo, classify_lower, classify_suite, format_duration, hint_lower, hms, suite_hint_from_path};
use crate::text::{chars_of, lowercase, str_eq, text_views};

verus! {

/// Adds a path unless it is listed already.
pub fn push_unique(items: &mut Vec<String>, value: String)
    ensures
        text_views(final(items)@) == (if text_views(old(items)@).contains(value@) {
            text_views(old(items)@)
        } else {
            text_views(old(items)@).push(value@)
        }),
{
    let ghost before = text_views(items@);
    if !contains_string(items, &chars_of(value.as_str())) {
        assert(crate::request::string_views(items@) =~= before);
        items.push(value);
        assert(text_views(items@) =~= before.push(text_views(items@).last()));
    } else {
        assert(crate::request::string_views(items@) =~= before);
    }
}

/// The suite of a laundry result: from the suite name its XML gives, or
/// else from its directory's path.
pub open spec fn result_suite(name: Option<Seq<char>>, dir: Seq<char>) -> Option<Seq<char>> {
    match name {
        Some(n) => match classify_lower(lowercase(n)) {
            Some(s) => Some(s),
            None => hint_lower(lowercase(dir)),
        },
        None => hint_lower(lowercase(dir)),
    }
}

pub fn laundry_suite_of(name: &Option<String>, result_dir: &str) -> (r: Option<String>)
    ensures
        opt_view(r) == result_suite(opt_view(*name), result_dir@),
{
    match name {
        Some(n) => match classify_suite(n.as_str()) {
            Some(s) => Some(s),
            None => suite_hint_from_path(result_dir),
        },
        None => suite_hint_from_path(result_dir),
    }
}

/// Adds `x` unless it is there: the list of distinct entries kept in order.
pub open spec fn add_unique(s: Seq<Seq<char>>, x: Seq<char>) -> Seq<Seq<char>> {
    if s.contains(x) { s } else { s.push(x) }
}

/// The result directories of a laundry zip, by suite: each found directory
/// (with the suite name its XML gives, if read) joins its suite's list once.
pub open spec fn grouped_results(found: Seq<(Seq<char>, Option<Seq<char>>)>) -> (Seq<Seq<char>>, Seq<Seq<char>>, Seq<Seq<char>>)
    decreases found.len(),
{
    if found.len() == 0 {
        (seq![], seq![], seq![])
    } else {
        let (c, g, s) = grouped_results(found.drop_last());
        let (dir, name) = found.last();
        match result_suite(name, dir) {
            Some(x) => if x == "CTS"@ {
                (add_unique(c, dir), g, s)
            } else if x == "GTS"@ {
                (c, add_unique(g, dir), s)
            } else if x == "STS"@ {
                (c, g, add_unique(s, dir))
            } else {
                (c, g, s)
            },
            None => (c, g, s),
        }
    }
}

pub open spec fn found_views(v: Seq<(String, Option<String>)>) -> Seq<(Seq<char>, Option<Seq<char>>)> {
    v.map_values(|p: (String, Option<String>)| (p.0@, opt_view(p.1)))
}

fn clone_opt_string(o: &Option<String>) -> (r: Option<String>)
    ensures
        opt_view(r) == opt_view(*o),
{
    match o {
        Some(s) => Some(s.clone()),
        None => None,
    }
}

pub fn group_laundry_results(found: &Vec<(String, Option<String>)>) -> (r: (Vec<String>, Vec<String>, Vec<String>))
    ensures
        (text_views(r.0@), text_views(r.1@), text_views(r.2@)) == grouped_results(found_views(found@)),
{
    let ghost fv = found_views(found@);
    let mut cts: Vec<String> = Vec::new();
    let mut gts: Vec<String> = Vec::new();
    let mut sts: Vec<String> = Vec::new();
    let mut i: usize = 0;
    assert(text_views(cts@) =~= Seq::<Seq<char>>::empty());
    assert(text_views(gts@) =~= Seq::<Seq<char>>::empty());
    assert(text_views(sts@) =~= Seq::<Seq<char>>::empty());
    while i < found.len()
        invariant
            i <= found.len(),
            fv == found_views(found@),
            (text_views(cts@), text_views(gts@), text_views(sts@)) == grouped_results(fv.take(i as int)),
        decreases found.len() - i,
    {
        proof {
            assert(fv.take(i + 1).drop_last() =~= fv.take(i as int));
            assert(fv.take(i + 1).last() == fv[i as int]);
        }
        let dir = &found[i].0;
        let suite = laundry_suite_of(&found[i].1, dir.as_str());
        match suite {
            Some(x) => {
                if str_eq(x.as_str(), "CTS") {
                    push_unique(&mut cts, dir.clone());
                } else if str_eq(x.as_str(), "GTS") {
                    push_unique(&mut gts, dir.clone());
                } else if str_eq(x.as_str(), "STS") {
                    push_unique(&mut sts, dir.clone());
                }
            },
            None => {},
        }
        i = i + 1;
    }
    assert(fv.take(found.len() as int) =~= fv);
    (cts, gts, sts)
}

/// The results a laundry run retries: all found, or, when some are picked,
/// those whose id below the extraction root is picked, in the order found.
pub open spec fn selected_results(root: Seq<char>, dirs: Seq<Seq<char>>, selected: Seq<Seq<char>>) -> Seq<Seq<char>> {
    if selected.len() == 0 {
        dirs
    } else {
        dirs.filter(|d: Seq<char>| selected.contains(result_id(root, d)))
    }
}

pub fn select_laundry_results(root: &str, dirs: &Vec<String>, selected: &Vec<String>) -> (r: Vec<String>)
    ensures
        text_views(r@) == selected_results(root@, text_views(dirs@), text_views(selected@)),
{
    let ghost dv = text_views(dirs@);
    let ghost sv = text_views(selected@);
    if selected.len() == 0 {
        return crate::request::clone_strings(dirs);
    }
    let mut r: Vec<String> = Vec::new();
    let mut i: usize = 0;
    while i < dirs.len()
        invariant
            i <= dirs.len(),
            selected.len() > 0,
            dv == text_views(dirs@),
            sv == text_views(selected@),
            text_views(r@) == dv.take(i as int).filter(|d: Seq<char>| sv.contains(result_id(root@, d))),
        decreases dirs.len() - i,
    {
        proof {
            assert(dv.take(i + 1).drop_last() =~= dv.take(i as int));
            assert(dv.take(i + 1).last() == dirs@[i as int]@);
            reveal_with_fuel(Seq::filter, 1);
        }
        let id = laundry_result_id(root, dirs[i].as_str());
        let ghost before = r@;
        if contains_string(selected, &chars_of(id.as_str())) {
            assert(crate::request::string_views(selected@) =~= sv);
            r.push(dirs[i].clone());
            assert(text_views(r@) =~= text_views(before).push(dirs@[i as int]@));
        } else {
            assert(crate::request::string_views(selected@) =~= sv);
        }
        i = i + 1;
    }
    assert(dv.take(dirs.len() as int) =~= dv);
    r
}

/// The time a laundry result shows: its duration once it ran, else `-`.
pub fn result_time_text(elapsed_secs: u64) -> (r: String)
    ensures
        r@ == (if elapsed_secs > 0 { hms(elapsed_secs as nat) } else { "-"@ }),
{
    if elapsed_secs > 0 {
        format_duration(elapsed_secs)
    } else {
        "-".to_string()
    }
}

} // verus!

verus! {

pub type InfoView = (Seq<char>, Seq<char>, Seq<char>, Seq<char>, Seq<char>, Seq<char>, u64, u64, u64, Seq<char>, Seq<char>);

pub open spec fn info_view(i: LaundryResultInfo) -> InfoView {
    (i.id@, i.suite@, i.testcase@, i.subtestcases@, i.status@, i.time@, i.total, i.passed, i.failed, i.suite_version@, i.result_dir@)
}

fn clone_info(i: &LaundryResultInfo) -> (r: LaundryResultInfo)
    ensures
        info_view(r) == info_view(*i),
{
    LaundryResultInfo {
        id: i.id.clone(),
        suite: i.suite.clone(),
        testcase: i.testcase.clone(),
        subtestcases: i.subtestcases.clone(),
        status: i.status.clone(),
        time: i.time.clone(),
        total: i.total,
        passed: i.passed,
        failed: i.failed,
        suite_version: i.suite_version.clone(),
        result_dir: i.result_dir.clone(),
    }
}

/// The key the preview sorts by: suite, then version, then directory.
pub open spec fn row_keys(rows: Seq<LaundryResultInfo>) -> Seq<Seq<Seq<char>>> {
    rows.map_values(|i: LaundryResultInfo| seq![i.suite@, i.suite_version@, i.result_dir@])
}

/// The preview's rows sorted by suite, version and directory, equal keys
/// kept in the order found.
pub fn sort_result_rows(rows: &Vec<LaundryResultInfo>) -> (r: Vec<LaundryResultInfo>)
    ensures
        r.len() == rows.len(),
        exists|p: Seq<int>| #[trigger] is_stable_key_order(row_keys(rows@), p) && forall|k: int|
            0 <= k < r.len() ==> info_view(#[trigger] r@[k]) == info_view(rows@[p[k]]),
{
    let ghost kv = row_keys(rows@);
    let mut keys: Vec<Vec<String>> = Vec::new();
    let mut i: usize = 0;
    while i < rows.len()
        invariant
            i <= rows.len(),
            kv == row_keys(rows@),
            keys.len() == i,
            forall|j: int| 0 <= j < i ==> #[trigger] key_views(keys@)[j] == kv[j],
        decreases rows.len() - i,
    {
        let k = vec![rows[i].suite.clone(), rows[i].suite_version.clone(), rows[i].result_dir.clone()];
        let ghost before = keys@;
        keys.push(k);
        proof {
            assert forall|j: int| 0 <= j < i + 1 implies #[trigger] key_views(keys@)[j] == kv[j] by {
                if j < i {
                    assert(keys@[j] == before[j]);
                    assert(key_views(before)[j] == kv[j]);
                } else {
                    assert(keys@[j]@.map_values(|s: String| s@) =~= kv[j]);
                }
            }
        }
        i = i + 1;
    }
    assert(key_views(keys@) =~= kv);
    let p = stable_key_order(&keys);
    let mut r: Vec<LaundryResultInfo> = Vec::new();
    let mut k: usize = 0;
    while k < p.len()
        invariant
            k <= p.len() == rows.len(),
            is_stable_key_order(kv, index_ints(p@)),
            r.len() == k,
            forall|j: int| 0 <= j < k ==> info_view(#[trigger] r@[j]) == info_view(rows@[p@[j] as int]),
        decreases p.len() - k,
    {
        assert(index_ints(p@)[k as int] == p@[k as int] as int);
        r.push(clone_info(&rows[p[k]]));
        k = k + 1;
    }
    assert forall|j: int| 0 <= j < r.len() implies info_view(#[trigger] r@[j]) == info_view(rows@[index_ints(p@)[j]]) by {
        assert(index_ints(p@)[j] == p@[j] as int);
    }
    r
}

} // verus!
