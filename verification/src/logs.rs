use vstd::prelude::*;

use crate::devices::trim_end_char;
use crate::num::{fmt_base, in_base};
use crate::order::{before_in_key_order, index_ints, is_stable_key_order, key_views, stable_key_order};
use crate::registry::{clone_opt, device_view, opt_view, BusyDevice, BusyRegistry, DeviceView};
use crate::strmap::{lemma_entries_lookup, pair_views, StrMap};
use crate::text::{
    chars_of, contains, ends_with, ends_with_exec, join_sep, join_strings, lines, lines_exec, slice_vec,
    matches_at, split_char, split_char_exec, str_eq, string_of, text_views, to_uppercase, uppercase, views,
};

verus! {

/// A run that the log view offers.
pub struct LogFlowOption {
    pub id: String,
    pub title: String,
    pub run_id: String,
    pub result_dir: Option<String>,
}

/// Id, title, run id and result directory.
pub type FlowView = (Seq<char>, Seq<char>, Seq<char>, Option<Seq<char>>);

pub open spec fn flow_view(f: LogFlowOption) -> FlowView {
    (f.id@, f.title@, f.run_id@, opt_view(f.result_dir))
}

/// The first part of a folder name's `_`-separated parts that ends in `devs`.
pub open spec fn devs_index(parts: Seq<Seq<char>>, i: int) -> Option<int>
    decreases parts.len() - i,
{
    if i < 0 || i >= parts.len() {
        None
    } else if ends_with(parts[i], "devs"@) {
        Some(i)
    } else {
        devs_index(parts, i + 1)
    }
}

/// The title of a result folder written before runs kept their own:
/// `<test type> | <model> | <pda>`, read from `<type parts>_<model>_<pda>_<n>devs_...`.
pub open spec fn legacy_title(name: Seq<char>) -> Option<Seq<char>> {
    let parts = split_char(name, '_');
    match devs_index(parts, 0) {
        Some(d) => if d >= 2 {
            Some(join_sep(parts.subrange(0, d - 2), " "@) + " | "@ + parts[d - 2] + " | "@ + parts[d - 1])
        } else {
            None
        },
        None => None,
    }
}

pub proof fn lemma_devs_index(parts: Seq<Seq<char>>, i: int)
    requires
        0 <= i,
    ensures
        devs_index(parts, i) matches Some(d) ==> i <= d < parts.len(),
    decreases parts.len() - i,
{
    if i < parts.len() && !ends_with(parts[i], "devs"@) {
        lemma_devs_index(parts, i + 1);
    }
}

pub fn legacy_flow_title(folder_name: &str) -> (r: Option<String>)
    ensures
        match r {
            Some(t) => legacy_title(folder_name@) == Some(t@),
            None => legacy_title(folder_name@) is None,
        },
{
    let parts = split_char_exec(&chars_of(folder_name), '_');
    let ghost pv = views(parts@);
    let devs = chars_of("devs");
    let mut d: usize = 0;
    while d < parts.len() && !ends_with_exec(&parts[d], &devs)
        invariant
            d <= parts.len(),
            pv == views(parts@),
            devs@ == "devs"@,
            devs_index(pv, 0) == devs_index(pv, d as int),
        decreases parts.len() - d,
    {
        assert(pv[d as int] == parts@[d as int]@);
        d = d + 1;
    }
    if d >= parts.len() {
        return None;
    }
    assert(pv[d as int] == parts@[d as int]@);
    if d < 2 {
        return None;
    }
    let mut head: Vec<String> = Vec::new();
    let mut k: usize = 0;
    while k < d - 2
        invariant
            k <= d - 2,
            d < parts.len(),
            pv == views(parts@),
            text_views(head@) == pv.subrange(0, k as int),
        decreases d - 2 - k,
    {
        let ghost before = head@;
        head.push(string_of(&parts[k]));
        assert(text_views(head@) =~= text_views(before).push(pv[k as int]));
        assert(pv.subrange(0, k + 1) =~= pv.subrange(0, k as int).push(pv[k as int]));
        k = k + 1;
    }
    let mut t = join_strings(&head, " ");
    t.append(" | ");
    t.append(string_of(&parts[d - 2]).as_str());
    t.append(" | ");
    t.append(string_of(&parts[d - 1]).as_str());
    assert(pv[d - 2] == parts@[d - 2]@);
    assert(pv[d - 1] == parts@[d - 1]@);
    Some(t)
}

/// `legacy_<hash in hex>`, the id of such a folder's run.
pub fn legacy_run_id(hash: u64) -> (r: String)
    ensures
        r@ == "legacy_"@ + in_base(hash as nat, 16),
{
    let mut r = "legacy_".to_string();
    r.append(string_of(&fmt_base(hash, 16)).as_str());
    r
}

fn trim_end_char_exec(v: &Vec<char>, c: char) -> (r: Vec<char>)
    ensures
        r@ == trim_end_char(v@, c),
{
    let mut j = v.len();
    assert(v@.subrange(0, v.len() as int) =~= v@);
    while j > 0 && v[j - 1] == c
        invariant
            j <= v.len(),
            trim_end_char(v@, c) == trim_end_char(v@.subrange(0, j as int), c),
        decreases j,
    {
        assert(v@.subrange(0, j as int).drop_last() =~= v@.subrange(0, j - 1));
        j = j - 1;
    }
    slice_vec(v, 0, j)
}

/// `<test type> | <model> | <pda> [<serial>]`, the title a busy device gives its run.
pub open spec fn device_flow_title(d: DeviceView) -> Seq<char> {
    d.2 + " | "@ + d.3 + " | "@ + d.4 + " ["@ + d.0 + "]"@
}

/// A run's flow once a busy device of it is taken in: a new run gets the
/// device's title and result directory; a known run lists the device's
/// serial in its title, and takes the device's result directory when it
/// has none.
pub open spec fn merge_device(m: Map<Seq<char>, FlowView>, d: DeviceView) -> Map<Seq<char>, FlowView> {
    let e: FlowView = if m.contains_key(d.5) { m[d.5] } else { (d.5, device_flow_title(d), d.5, d.7) };
    let tag = "["@ + d.0 + "]"@;
    let title = if ends_with(e.1, tag) { e.1 } else { trim_end_char(e.1, ']') + ","@ + d.0 + "]"@ };
    let dir = if e.3 is None { d.7 } else { e.3 };
    m.insert(d.5, (e.0, title, e.2, dir))
}

pub open spec fn merge_devices(m: Map<Seq<char>, FlowView>, ds: Seq<DeviceView>) -> Map<Seq<char>, FlowView>
    decreases ds.len(),
{
    if ds.len() == 0 {
        m
    } else {
        merge_device(merge_devices(m, ds.drop_last()), ds.last())
    }
}

pub open spec fn flows_view(m: StrMap<LogFlowOption>) -> Map<Seq<char>, FlowView> {
    m.view().map_values(|f: LogFlowOption| flow_view(f))
}

fn clone_flow(f: &LogFlowOption) -> (r: LogFlowOption)
    ensures
        flow_view(r) == flow_view(*f),
{
    LogFlowOption { id: f.id.clone(), title: f.title.clone(), run_id: f.run_id.clone(), result_dir: clone_opt(&f.result_dir) }
}

fn merge_one(groups: &mut StrMap<LogFlowOption>, d: &BusyDevice)
    ensures
        flows_view(*final(groups)) == merge_device(flows_view(*old(groups)), device_view(*d)),
{
    let ghost m0 = flows_view(*groups);
    let ghost dv = device_view(*d);
    let mut e = match groups.get(d.run_id.as_str()) {
        Some(f) => clone_flow(f),
        None => {
            let mut title = d.test_type.clone();
            title.append(" | ");
            title.append(d.model.as_str());
            title.append(" | ");
            title.append(d.pda.as_str());
            title.append(" [");
            title.append(d.serial.as_str());
            title.append("]");
            LogFlowOption { id: d.run_id.clone(), title, run_id: d.run_id.clone(), result_dir: clone_opt(&d.result_dir) }
        },
    };
    let mut tag = "[".to_string();
    tag.append(d.serial.as_str());
    tag.append("]");
    if !ends_with_exec(&chars_of(e.title.as_str()), &chars_of(tag.as_str())) {
        let mut t = string_of(&trim_end_char_exec(&chars_of(e.title.as_str()), ']'));
        t.append(",");
        t.append(d.serial.as_str());
        t.append("]");
        e.title = t;
    }
    if e.result_dir.is_none() {
        e.result_dir = clone_opt(&d.result_dir);
    }
    let ghost ev = flow_view(e);
    let ghost before = groups.view();
    groups.insert(d.run_id.clone(), e);
    assert(flows_view(*groups) =~= m0.insert(dv.5, ev));
}

/// Takes every busy device of the registry, in its order, into the flows.
pub fn merge_busy_devices(groups: &mut StrMap<LogFlowOption>, registry: &BusyRegistry)
    ensures
        flows_view(*final(groups)) == merge_devices(
            flows_view(*old(groups)),
            registry.devices.entries().map_values(|p: (Seq<char>, BusyDevice)| device_view(p.1)),
        ),
{
    let ghost m0 = flows_view(*groups);
    let ghost ds = registry.devices.entries().map_values(|p: (Seq<char>, BusyDevice)| device_view(p.1));
    let n = registry.devices.len();
    let mut i: usize = 0;
    while i < n
        invariant
            i <= n,
            n == registry.devices.entries().len(),
            ds == registry.devices.entries().map_values(|p: (Seq<char>, BusyDevice)| device_view(p.1)),
            flows_view(*groups) == merge_devices(m0, ds.take(i as int)),
        decreases n - i,
    {
        let d = registry.devices.value_at(i);
        merge_one(groups, d);
        proof {
            assert(ds.take(i + 1).drop_last() =~= ds.take(i as int));
            assert(ds.take(i + 1).last() == device_view(*d));
        }
        i = i + 1;
    }
    assert(ds.take(n as int) =~= ds);
}

pub open spec fn title_keys(es: Seq<(Seq<char>, LogFlowOption)>) -> Seq<Seq<Seq<char>>> {
    es.map_values(|e: (Seq<char>, LogFlowOption)| seq![e.1.title@])
}

/// The flows to offer, ordered by title (equal titles in map order).
pub fn flows_by_title(groups: &StrMap<LogFlowOption>) -> (r: Vec<LogFlowOption>)
    ensures
        r.len() == groups.entries().len(),
        exists|p: Seq<int>| #[trigger] is_stable_key_order(title_keys(groups.entries()), p) && forall|k: int| 0 <= k < r.len() ==> flow_view(#[trigger] r@[k]) == flow_view(groups.entries()[p[k]].1),
{
    let n = groups.len();
    let ghost es = groups.entries();
    let mut keys: Vec<Vec<String>> = Vec::new();
    let mut i: usize = 0;
    while i < n
        invariant
            i <= n,
            n == es.len(),
            es == groups.entries(),
            keys.len() == i,
            forall|j: int| 0 <= j < i ==> #[trigger] key_views(keys@)[j] == seq![es[j].1.title@],
        decreases n - i,
    {
        let k = vec![groups.value_at(i).title.clone()];
        let ghost before = keys@;
        keys.push(k);
        proof {
            assert forall|j: int| 0 <= j < i + 1 implies #[trigger] key_views(keys@)[j] == seq![es[j].1.title@] by {
                if j < i {
                    assert(keys@[j] == before[j]);
                    assert(key_views(before)[j] == seq![es[j].1.title@]);
                } else {
                    assert(keys@[j]@.map_values(|s: String| s@) =~= seq![es[j].1.title@]);
                }
            }
        }
        i = i + 1;
    }
    let ghost kv = title_keys(es);
    assert(key_views(keys@) =~= kv);
    let p = stable_key_order(&keys);
    let mut r: Vec<LogFlowOption> = Vec::new();
    let mut k: usize = 0;
    while k < p.len()
        invariant
            k <= p.len() == n,
            n == es.len(),
            es == groups.entries(),
            is_stable_key_order(kv, index_ints(p@)),
            r.len() == k,
            forall|j: int| 0 <= j < k ==> flow_view(#[trigger] r@[j]) == flow_view(es[p@[j] as int].1),
        decreases p.len() - k,
    {
        assert(index_ints(p@)[k as int] == p@[k as int] as int);
        let f = clone_flow(groups.value_at(p[k]));
        r.push(f);
        k = k + 1;
    }
    assert forall|j: int| 0 <= j < r.len() implies flow_view(#[trigger] r@[j]) == flow_view(es[index_ints(p@)[j]].1) by {
        assert(index_ints(p@)[j] == p@[j] as int);
    }
    r
}

/// The result directory of the first flow of a run (`resolve_log_result_dir`).
pub open spec fn flow_result_dir(flows: Seq<FlowView>, run_id: Seq<char>, i: int) -> Option<Seq<char>>
    decreases flows.len() - i,
{
    if i < 0 || i >= flows.len() {
        None
    } else if flows[i].2 == run_id {
        flows[i].3
    } else {
        flow_result_dir(flows, run_id, i + 1)
    }
}

pub fn find_flow_result_dir(flows: &Vec<LogFlowOption>, run_id: &str) -> (r: Option<String>)
    ensures
        opt_view(r) == flow_result_dir(flows@.map_values(|f: LogFlowOption| flow_view(f)), run_id@, 0),
{
    let ghost fv = flows@.map_values(|f: LogFlowOption| flow_view(f));
    let mut i: usize = 0;
    while i < flows.len()
        invariant
            i <= flows.len(),
            fv == flows@.map_values(|f: LogFlowOption| flow_view(f)),
            flow_result_dir(fv, run_id@, 0) == flow_result_dir(fv, run_id@, i as int),
        decreases flows.len() - i,
    {
        assert(fv[i as int] == flow_view(flows@[i as int]));
        if str_eq(flows[i].run_id.as_str(), run_id) {
            return clone_opt(&flows[i].result_dir);
        }
        i = i + 1;
    }
    None
}

} // verus!

verus! {

/// The log section asked for, upper-cased: one of RUNNER, CTS, GTS, STS or
/// ALL (RUNNER when none is given, ALL for anything else).
pub open spec fn requested_suite_spec(s: Option<Seq<char>>) -> Seq<char> {
    let u = uppercase(
        match s {
            Some(x) => x,
            None => "RUNNER"@,
        },
    );
    if u == "RUNNER"@ || u == "CTS"@ || u == "GTS"@ || u == "STS"@ || u == "ALL"@ {
        u
    } else {
        "ALL"@
    }
}

pub fn requested_log_suite(suite: &Option<String>) -> (r: String)
    ensures
        r@ == requested_suite_spec(opt_view(*suite)),
{
    let u = match suite {
        Some(s) => to_uppercase(s.as_str()),
        None => to_uppercase("RUNNER"),
    };
    let t = u.as_str();
    if str_eq(t, "RUNNER") || str_eq(t, "CTS") || str_eq(t, "GTS") || str_eq(t, "STS") || str_eq(t, "ALL") {
        u
    } else {
        "ALL".to_string()
    }
}

/// Whether a section is shown for the request.
pub fn suite_wanted(requested: &str, suite: &str) -> (r: bool)
    ensures
        r == (requested@ == "ALL"@ || requested@ == suite@),
{
    str_eq(requested, "ALL") || str_eq(requested, suite)
}

/// The last `n` lines of a text, joined by `\n`.
pub open spec fn tail_text(content: Seq<char>, n: nat) -> Seq<char> {
    let ls = lines(content);
    let start = if ls.len() > n { ls.len() - n } else { 0 };
    join_sep(ls.subrange(start, ls.len() as int), "\n"@)
}

pub fn tail_lines(content: &str, n: usize) -> (r: String)
    ensures
        r@ == tail_text(content@, n as nat),
{
    let ls = lines_exec(&chars_of(content));
    let ghost lv = views(ls@);
    let start: usize = if ls.len() > n { ls.len() - n } else { 0 };
    let mut kept: Vec<String> = Vec::new();
    let mut i = start;
    while i < ls.len()
        invariant
            start <= i <= ls.len(),
            lv == views(ls@),
            text_views(kept@) == lv.subrange(start as int, i as int),
        decreases ls.len() - i,
    {
        let ghost before = kept@;
        assert(lv[i as int] == ls@[i as int]@);
        kept.push(string_of(&ls[i]));
        assert(text_views(kept@) =~= text_views(before).push(lv[i as int]));
        assert(lv.subrange(start as int, i + 1) =~= lv.subrange(start as int, i as int).push(lv[i as int]));
        i = i + 1;
    }
    join_strings(&kept, "\n")
}

/// `--- LOG FILE: <name> ---\n<tail>\n\n`, one section of the shown logs.
pub fn log_section(name: &str, tail: &str) -> (r: String)
    ensures
        r@ == "--- LOG FILE: "@ + name@ + " ---\n"@ + tail@ + "\n\n"@,
{
    let mut r = "--- LOG FILE: ".to_string();
    r.append(name);
    r.append(" ---\n");
    r.append(tail);
    r.append("\n\n");
    r
}

/// The sections the view offers: ALL, then those found, in a fixed order.
pub fn suite_options(runner: bool, cts: bool, gts: bool, sts: bool) -> (r: Vec<String>)
    ensures
        text_views(r@) == seq!["ALL"@] + (if runner { seq!["RUNNER"@] } else { seq![] }) + (if cts {
            seq!["CTS"@]
        } else {
            seq![]
        }) + (if gts { seq!["GTS"@] } else { seq![] }) + (if sts { seq!["STS"@] } else { seq![] }),
{
    let mut r: Vec<String> = Vec::new();
    r.push("ALL".to_string());
    if runner {
        r.push("RUNNER".to_string());
    }
    if cts {
        r.push("CTS".to_string());
    }
    if gts {
        r.push("GTS".to_string());
    }
    if sts {
        r.push("STS".to_string());
    }
    assert(text_views(r@) =~= seq!["ALL"@] + (if runner { seq!["RUNNER"@] } else { seq![] }) + (if cts {
        seq!["CTS"@]
    } else {
        seq![]
    }) + (if gts { seq!["GTS"@] } else { seq![] }) + (if sts { seq!["STS"@] } else { seq![] }));
    r
}

/// The logs to show, or a note that none were found.
pub fn logs_or_note(combined: &str) -> (r: String)
    ensures
        r@ == (if combined@.len() == 0 { "No log files found."@ } else { combined@ }),
{
    if chars_of(combined).len() == 0 {
        "No log files found.".to_string()
    } else {
        combined.to_string()
    }
}

/// The last hundred lines of the followed log, or a note that there is none.
pub fn active_logs(content: &Option<String>) -> (r: String)
    ensures
        r@ == (match *content {
            Some(c) => tail_text(c@, 100),
            None => "No active logs found."@,
        }),
{
    match content {
        Some(c) => tail_lines(c.as_str(), 100),
        None => "No active logs found.".to_string(),
    }
}

} // verus!

verus! {

/// Every run that holds a device is offered in the log view, and no run
/// already offered is dropped.
pub proof fn law_busy_runs_are_offered(m: Map<Seq<char>, FlowView>, ds: Seq<DeviceView>)
    ensures
        forall|i: int| 0 <= i < ds.len() ==> #[trigger] merge_devices(m, ds).contains_key(ds[i].5),
        forall|k: Seq<char>| #[trigger] m.contains_key(k) ==> merge_devices(m, ds).contains_key(k),
    decreases ds.len(),
{
    if ds.len() > 0 {
        let rest = ds.drop_last();
        law_busy_runs_are_offered(m, rest);
        assert forall|i: int| 0 <= i < ds.len() implies #[trigger] merge_devices(m, ds).contains_key(ds[i].5) by {
            if i < ds.len() - 1 {
                assert(ds[i] == rest[i]);
                assert(merge_devices(m, rest).contains_key(rest[i].5));
            }
        }
    }
}

/// Trimming `]` from the end of a text keeps an occurrence of a pattern that
/// does not itself end in `]`.
proof fn lemma_trim_keeps_match(t: Seq<char>, pat: Seq<char>, k: int)
    requires
        matches_at(t, pat, k),
        pat.len() > 0,
        pat.last() != ']',
    ensures
        matches_at(trim_end_char(t, ']'), pat, k),
    decreases t.len(),
{
    if t.len() > 0 && t.last() == ']' {
        assert(t.subrange(k, k + pat.len())[pat.len() - 1] == t[k + pat.len() - 1]);
        assert(t.drop_last().subrange(k, k + pat.len()) =~= t.subrange(k, k + pat.len()));
        lemma_trim_keeps_match(t.drop_last(), pat, k);
    }
}

proof fn lemma_append_keeps_match(t: Seq<char>, u: Seq<char>, pat: Seq<char>, k: int)
    requires
        matches_at(t, pat, k),
    ensures
        matches_at(t + u, pat, k),
{
    assert((t + u).subrange(k, k + pat.len()) =~= t.subrange(k, k + pat.len()));
}

/// A serial that a run's title can name: one that does not end in `]`.
pub open spec fn serial_fits_title(serial: Seq<char>) -> bool {
    serial.len() == 0 || serial.last() != ']'
}

proof fn lemma_merge_names_device(m: Map<Seq<char>, FlowView>, d: DeviceView)
    ensures
        merge_device(m, d).contains_key(d.5),
        contains(merge_device(m, d)[d.5].1, d.0),
{
    let e: FlowView = if m.contains_key(d.5) { m[d.5] } else { (d.5, device_flow_title(d), d.5, d.7) };
    let tag = "["@ + d.0 + "]"@;
    reveal_strlit("[");
    reveal_strlit("]");
    reveal_strlit(",");
    if ends_with(e.1, tag) {
        let k: int = e.1.len() - d.0.len() - 1;
        assert(e.1.subrange(k, k + d.0.len()) =~= e.1.subrange(e.1.len() - tag.len(), e.1.len() as int).subrange(1int, 1 + d.0.len() as int));
        assert(tag.subrange(1int, 1 + d.0.len() as int) =~= d.0);
        assert(matches_at(e.1, d.0, k));
    } else {
        let tr = trim_end_char(e.1, ']');
        let t = tr + ","@ + d.0 + "]"@;
        let k: int = tr.len() + 1int;
        assert(t.subrange(k, k + d.0.len()) =~= d.0);
        assert(matches_at(t, d.0, k));
    }
}

proof fn lemma_merge_keeps_name(m: Map<Seq<char>, FlowView>, d: DeviceView, run: Seq<char>, serial: Seq<char>)
    requires
        m.contains_key(run),
        contains(m[run].1, serial),
        serial_fits_title(serial),
    ensures
        merge_device(m, d).contains_key(run),
        contains(merge_device(m, d)[run].1, serial),
{
    if run == d.5 {
        let e = m[run];
        let tag = "["@ + d.0 + "]"@;
        if !ends_with(e.1, tag) {
            let tr = trim_end_char(e.1, ']');
            let t = tr + ","@ + d.0 + "]"@;
            if serial.len() == 0 {
                assert(t.subrange(0, 0) =~= serial);
                assert(matches_at(t, serial, 0));
            } else {
                let k = choose|k: int| matches_at(e.1, serial, k);
                lemma_trim_keeps_match(e.1, serial, k);
                lemma_append_keeps_match(tr, ","@ + d.0 + "]"@, serial, k);
                assert(t =~= tr + (","@ + d.0 + "]"@));
                assert(matches_at(t, serial, k));
            }
        }
    }
}

/// Once the busy devices are taken in, the title of each device's run names
/// the device's serial. A serial ending in `]` can lose that bracket when a
/// later device of its run trims the title's closing `]`, so such serials are
/// left out.
pub proof fn law_busy_serials_in_titles(m: Map<Seq<char>, FlowView>, ds: Seq<DeviceView>)
    requires
        forall|i: int| 0 <= i < ds.len() ==> serial_fits_title(#[trigger] ds[i].0),
    ensures
        forall|i: int|
            #![trigger ds[i]]
            0 <= i < ds.len() ==> merge_devices(m, ds).contains_key(ds[i].5) && contains(
                merge_devices(m, ds)[ds[i].5].1,
                ds[i].0,
            ),
    decreases ds.len(),
{
    if ds.len() > 0 {
        let rest = ds.drop_last();
        assert forall|i: int| 0 <= i < rest.len() implies serial_fits_title(#[trigger] rest[i].0) by {
            assert(rest[i] == ds[i]);
        }
        law_busy_serials_in_titles(m, rest);
        assert forall|i: int|
            #![trigger ds[i]]
            0 <= i < ds.len() implies merge_devices(m, ds).contains_key(ds[i].5) && contains(
                merge_devices(m, ds)[ds[i].5].1,
                ds[i].0,
            ) by {
            if i < ds.len() - 1 {
                assert(rest[i] == ds[i]);
                assert(serial_fits_title(ds[i].0));
                lemma_merge_keeps_name(merge_devices(m, rest), ds.last(), ds[i].5, ds[i].0);
            } else {
                lemma_merge_names_device(merge_devices(m, rest), ds.last());
            }
        }
    }
}

} // verus!
