use vstd::prelude::*;

use crate::devices::{
    first_non_blank, first_non_empty, is_userdebug_build, is_userdebug_build_spec, prop, prop_value,
    str_views, string_map_view,
};
use crate::request::{string_views, RunSuiteRequest};
use crate::strmap::{entries_map, keys_unique, pair_views, StrMap};
use crate::text::{chars_of, eq_chars, join_sep, join_strings, split_char, split_char_exec, text_views, views};

verus! {

/// How far one suite has got on a busy device.
pub struct SuiteRuntimeStatus {
    pub status: String,
    pub elapsed_secs: u64,
    pub zip_file: Option<String>,
}

pub open spec fn opt_view(o: Option<String>) -> Option<Seq<char>> {
    match o {
        Some(s) => Some(s@),
        None => None,
    }
}

/// Status text, seconds elapsed and result zip of a suite.
pub type StatusView = (Seq<char>, u64, Option<Seq<char>>);

pub open spec fn status_view(s: SuiteRuntimeStatus) -> StatusView {
    (s.status@, s.elapsed_secs, opt_view(s.zip_file))
}

/// A device taken by a run.
pub struct BusyDevice {
    pub serial: String,
    pub is_userdebug: bool,
    pub test_type: String,
    pub model: String,
    pub pda: String,
    pub run_id: String,
    pub started_at: String,
    pub result_dir: Option<String>,
    pub current_suite: Option<String>,
    pub suite_statuses: StrMap<SuiteRuntimeStatus>,
}

/// Serial, userdebug, test type, model, PDA, run id, start time, result
/// directory, current suite and the suites' statuses.
pub type DeviceView = (
    Seq<char>,
    bool,
    Seq<char>,
    Seq<char>,
    Seq<char>,
    Seq<char>,
    Seq<char>,
    Option<Seq<char>>,
    Option<Seq<char>>,
    Map<Seq<char>, StatusView>,
);

pub open spec fn statuses_view(m: StrMap<SuiteRuntimeStatus>) -> Map<Seq<char>, StatusView> {
    m.view().map_values(|s: SuiteRuntimeStatus| status_view(s))
}

pub open spec fn device_view(d: BusyDevice) -> DeviceView {
    (d.serial@, d.is_userdebug, d.test_type@, d.model@, d.pda@, d.run_id@, d.started_at@,
        opt_view(d.result_dir), opt_view(d.current_suite), statuses_view(d.suite_statuses))
}

/// The devices that runs hold, by serial.
pub struct BusyRegistry {
    pub devices: StrMap<BusyDevice>,
}

pub open spec fn registry_view(r: BusyRegistry) -> Map<Seq<char>, DeviceView> {
    r.devices.view().map_values(|d: BusyDevice| device_view(d))
}

pub proof fn lemma_entries_map_values<V, W>(s: Seq<(Seq<char>, V)>, h: spec_fn(V) -> W)
    ensures
        entries_map(s).map_values(h) == entries_map(s.map_values(|p: (Seq<char>, V)| (p.0, h(p.1)))),
    decreases s.len(),
{
    let t = s.map_values(|p: (Seq<char>, V)| (p.0, h(p.1)));
    if s.len() > 0 {
        lemma_entries_map_values(s.drop_last(), h);
        assert(t.drop_last() =~= s.drop_last().map_values(|p: (Seq<char>, V)| (p.0, h(p.1))));
    }
    assert(entries_map(s).map_values(h) =~= entries_map(t));
}

pub open spec fn device_pairs(s: Seq<(Seq<char>, BusyDevice)>) -> Seq<(Seq<char>, DeviceView)> {
    s.map_values(|p: (Seq<char>, BusyDevice)| (p.0, device_view(p.1)))
}

pub proof fn lemma_registry_view(r: BusyRegistry)
    ensures
        registry_view(r) == entries_map(device_pairs(r.devices.entries())),
{
    lemma_entries_map_values(r.devices.entries(), |d: BusyDevice| device_view(d));
    assert(device_pairs(r.devices.entries()) =~= r.devices.entries().map_values(
        |p: (Seq<char>, BusyDevice)| (p.0, (|d: BusyDevice| device_view(d))(p.1)),
    ));
}

/// Rebuilds a registry from its entries after each device was rewritten in
/// place; the registry then maps each key to the rewritten device.
proof fn lemma_rebuilt(old_entries: Seq<(Seq<char>, BusyDevice)>, new_entries: Seq<(Seq<char>, BusyDevice)>, f: spec_fn(DeviceView) -> DeviceView)
    requires
        old_entries.len() == new_entries.len(),
        forall|i: int| 0 <= i < old_entries.len() ==> #[trigger] new_entries[i].0 == old_entries[i].0
            && device_view(new_entries[i].1) == f(device_view(old_entries[i].1)),
    ensures
        entries_map(device_pairs(new_entries)) == entries_map(device_pairs(old_entries)).map_values(f),
{
    lemma_entries_map_values(device_pairs(old_entries), f);
    assert(device_pairs(new_entries) =~= device_pairs(old_entries).map_values(|p: (Seq<char>, DeviceView)| (p.0, f(p.1))));
}

pub proof fn lemma_keys_kept(old_entries: Seq<(Seq<char>, BusyDevice)>, new_entries: Seq<(Seq<char>, BusyDevice)>)
    requires
        keys_unique(old_entries),
        old_entries.len() == new_entries.len(),
        forall|i: int| 0 <= i < old_entries.len() ==> #[trigger] new_entries[i].0 == old_entries[i].0,
    ensures
        keys_unique(new_entries),
{
    assert forall|a: int, b: int| 0 <= a < b < new_entries.len() implies #[trigger] new_entries[a].0 != #[trigger] new_entries[b].0 by {
        assert(new_entries[a].0 == old_entries[a].0 && new_entries[b].0 == old_entries[b].0);
    }
}

pub fn clone_opt(o: &Option<String>) -> (r: Option<String>)
    ensures
        opt_view(r) == opt_view(*o),
{
    match o {
        Some(s) => Some(s.clone()),
        None => None,
    }
}

/// A device's record with only its result directory changed when it belongs to the run.
pub open spec fn with_result_dir(d: DeviceView, run_id: Seq<char>, result_dir: Seq<char>) -> DeviceView {
    if d.5 == run_id {
        (d.0, d.1, d.2, d.3, d.4, d.5, d.6, Some(result_dir), d.8, d.9)
    } else {
        d
    }
}

/// Rewrites every device of the registry with `step`, which acts on each
/// device's record as `g` says; keys and their order are kept.
fn rewrite_devices<F: Fn(BusyDevice) -> BusyDevice>(registry: &mut BusyRegistry, step: F, Ghost(g): Ghost<spec_fn(DeviceView) -> DeviceView>)
    requires
        forall|d: BusyDevice| #[trigger] step.requires((d,)),
        forall|d: BusyDevice, r: BusyDevice| #[trigger] step.ensures((d,), r) ==> device_view(r) == g(device_view(d)),
    ensures
        registry_view(*final(registry)) == registry_view(*old(registry)).map_values(g),
        registry_view(*final(registry)).dom() == registry_view(*old(registry)).dom(),
{
    proof {
        lemma_registry_view(*registry);
    }
    let mut devices = StrMap::new();
    std::mem::swap(&mut devices, &mut registry.devices);
    let ghost old_entries = devices.entries();
    let mut items = devices.into_entries();
    let mut out: Vec<(String, BusyDevice)> = Vec::new();
    let ghost total = items@.len();
    while items.len() > 0
        invariant
            out.len() + items.len() == total,
            total == old_entries.len(),
            forall|d: BusyDevice| #[trigger] step.requires((d,)),
            forall|d: BusyDevice, r: BusyDevice| #[trigger] step.ensures((d,), r) ==> device_view(r) == g(device_view(d)),
            forall|j: int| 0 <= j < items.len() ==> #[trigger] pair_views(items@)[j] == old_entries[out.len() + j],
            forall|i: int| 0 <= i < out.len() ==> #[trigger] pair_views(out@)[i].0 == old_entries[i].0
                && device_view(pair_views(out@)[i].1) == g(device_view(old_entries[i].1)),
        decreases items.len(),
    {
        let ghost before_items = items@;
        let (key, d) = items.remove(0);
        assert(pair_views(before_items)[0] == old_entries[out.len() as int]);
        assert forall|j: int| 0 <= j < items.len() implies #[trigger] pair_views(items@)[j] == old_entries[out.len() + 1 + j] by {
            assert(pair_views(before_items)[j + 1] == old_entries[out.len() + j + 1]);
        }
        assert(d == old_entries[out.len() as int].1);
        let ghost dv = device_view(d);
        let nd = step(d);
        let ghost k = key@;
        let ghost old_out = out@;
        out.push((key, nd));
        assert(pair_views(out@)[out.len() - 1] == (k, nd));
        assert forall|i: int| 0 <= i < out.len() - 1 implies #[trigger] pair_views(out@)[i] == pair_views(old_out)[i] by {}
    }
    proof {
        assert forall|i: int| 0 <= i < old_entries.len() implies #[trigger] pair_views(out@)[i].0 == old_entries[i].0 by {}
        lemma_keys_kept(old_entries, pair_views(out@));
        lemma_rebuilt(old_entries, pair_views(out@), g);
    }
    registry.devices = StrMap::from_entries(out);
    proof {
        lemma_registry_view(*registry);
        assert(registry_view(*registry).dom() =~= entries_map(device_pairs(old_entries)).dom());
    }
}

/// Records the result directory on every device of the run.
pub fn update_busy_device_result_dir(registry: &mut BusyRegistry, run_id: &str, result_dir: &str)
    ensures
        registry_view(*final(registry)) == registry_view(*old(registry)).map_values(
            |d: DeviceView| with_result_dir(d, run_id@, result_dir@),
        ),
        registry_view(*final(registry)).dom() == registry_view(*old(registry)).dom(),
{
    let rid = chars_of(run_id);
    let step = |d: BusyDevice| -> (r: BusyDevice)
        ensures
            device_view(r) == with_result_dir(device_view(d), run_id@, result_dir@),
        {
            if eq_chars(&chars_of(d.run_id.as_str()), &rid) {
                BusyDevice {
                    serial: d.serial,
                    is_userdebug: d.is_userdebug,
                    test_type: d.test_type,
                    model: d.model,
                    pda: d.pda,
                    run_id: d.run_id,
                    started_at: d.started_at,
                    result_dir: Some(result_dir.to_string()),
                    current_suite: d.current_suite,
                    suite_statuses: d.suite_statuses,
                }
            } else {
                d
            }
        };
    rewrite_devices(registry, step, Ghost(|d: DeviceView| with_result_dir(d, run_id@, result_dir@)));
}

} // verus!

verus! {

/// Whether `s` is one of the strings.
pub fn contains_string(v: &Vec<String>, s: &Vec<char>) -> (r: bool)
    ensures
        r == string_views(v@).contains(s@),
{
    let mut i: usize = 0;
    while i < v.len()
        invariant
            i <= v.len(),
            forall|j: int| 0 <= j < i ==> string_views(v@)[j] != s@,
        decreases v.len() - i,
    {
        assert(string_views(v@)[i as int] == v@[i as int]@);
        if eq_chars(&chars_of(v[i].as_str()), s) {
            return true;
        }
        i = i + 1;
    }
    false
}

/// Whether `s` is one of the pieces.
pub fn contains_piece(v: &Vec<Vec<char>>, s: &Vec<char>) -> (r: bool)
    ensures
        r == views(v@).contains(s@),
{
    let mut i: usize = 0;
    while i < v.len()
        invariant
            i <= v.len(),
            forall|j: int| 0 <= j < i ==> views(v@)[j] != s@,
        decreases v.len() - i,
    {
        assert(views(v@)[i as int] == v@[i as int]@);
        if eq_chars(&v[i], s) {
            return true;
        }
        i = i + 1;
    }
    false
}

/// The statuses after `suite` is set to `status` and `elapsed`, its zip kept.
pub open spec fn set_suite_status(m: Map<Seq<char>, StatusView>, suite: Seq<char>, status: Seq<char>, elapsed: u64) -> Map<Seq<char>, StatusView> {
    let zip = if m.contains_key(suite) { m[suite].2 } else { None };
    m.insert(suite, (status, elapsed, zip))
}

/// A device of the run whose serial is in the comma-separated list moves to
/// `suite`, with that suite's status and elapsed time set; others are untouched.
pub open spec fn with_suite_status(d: DeviceView, run_id: Seq<char>, suite: Seq<char>, status: Seq<char>, elapsed: u64, serials: Seq<char>) -> DeviceView {
    if d.5 == run_id && split_char(serials, ',').contains(d.0) {
        (d.0, d.1, d.2, d.3, d.4, d.5, d.6, d.7, Some(suite), set_suite_status(d.9, suite, status, elapsed))
    } else {
        d
    }
}

fn set_status_in(st: StrMap<SuiteRuntimeStatus>, suite: &str, status: &str, elapsed: u64) -> (r: StrMap<SuiteRuntimeStatus>)
    ensures
        statuses_view(r) == set_suite_status(statuses_view(st), suite@, status@, elapsed),
{
    let mut st = st;
    let ghost before = st.view();
    let _ = st.len();
    match st.index_of(&chars_of(suite)) {
        Some(i) => {
            proof {
                st.lemma_view();
                assert(st.view().contains_key(st.entries()[i as int].0));
            }
            let z = clone_opt(&st.value_at(i).zip_file);
            let v = SuiteRuntimeStatus { status: status.to_string(), elapsed_secs: elapsed, zip_file: z };
            st.set_value_at(i, v);
            assert(statuses_view(st) =~= set_suite_status(before.map_values(|s: SuiteRuntimeStatus| status_view(s)), suite@, status@, elapsed));
        },
        None => {
            let v = SuiteRuntimeStatus { status: status.to_string(), elapsed_secs: elapsed, zip_file: None };
            st.insert(suite.to_string(), v);
            assert(statuses_view(st) =~= set_suite_status(before.map_values(|s: SuiteRuntimeStatus| status_view(s)), suite@, status@, elapsed));
        },
    }
    st
}

/// Records a suite's progress on the devices of the run that the list names.
pub fn update_busy_device_suite(registry: &mut BusyRegistry, run_id: &str, suite: &str, status: &str, elapsed_secs: u64, serials: &str)
    ensures
        registry_view(*final(registry)) == registry_view(*old(registry)).map_values(
            |d: DeviceView| with_suite_status(d, run_id@, suite@, status@, elapsed_secs, serials@),
        ),
        registry_view(*final(registry)).dom() == registry_view(*old(registry)).dom(),
{
    let rid = chars_of(run_id);
    let pieces = split_char_exec(&chars_of(serials), ',');
    let step = |d: BusyDevice| -> (r: BusyDevice)
        ensures
            device_view(r) == with_suite_status(device_view(d), run_id@, suite@, status@, elapsed_secs, serials@),
        {
            if eq_chars(&chars_of(d.run_id.as_str()), &rid) && contains_piece(&pieces, &chars_of(d.serial.as_str())) {
                let statuses = set_status_in(d.suite_statuses, suite, status, elapsed_secs);
                BusyDevice {
                    serial: d.serial,
                    is_userdebug: d.is_userdebug,
                    test_type: d.test_type,
                    model: d.model,
                    pda: d.pda,
                    run_id: d.run_id,
                    started_at: d.started_at,
                    result_dir: d.result_dir,
                    current_suite: Some(suite.to_string()),
                    suite_statuses: statuses,
                }
            } else {
                d
            }
        };
    rewrite_devices(registry, step, Ghost(|d: DeviceView| with_suite_status(d, run_id@, suite@, status@, elapsed_secs, serials@)));
}

/// A listed device that already has a status for `suite` gets its zip recorded.
pub open spec fn with_suite_zip(d: DeviceView, suite: Seq<char>, serials: Seq<Seq<char>>, zip: Seq<char>) -> DeviceView {
    if serials.contains(d.0) && d.9.contains_key(suite) {
        (d.0, d.1, d.2, d.3, d.4, d.5, d.6, d.7, d.8, d.9.insert(suite, (d.9[suite].0, d.9[suite].1, Some(zip))))
    } else {
        d
    }
}

fn set_zip_in(st: StrMap<SuiteRuntimeStatus>, suite: &str, zip: &str) -> (r: StrMap<SuiteRuntimeStatus>)
    ensures
        statuses_view(st).contains_key(suite@) ==> statuses_view(r) == statuses_view(st).insert(
            suite@,
            (statuses_view(st)[suite@].0, statuses_view(st)[suite@].1, Some(zip@)),
        ),
        !statuses_view(st).contains_key(suite@) ==> statuses_view(r) == statuses_view(st),
{
    let mut st = st;
    let ghost before = statuses_view(st);
    let _ = st.len();
    match st.index_of(&chars_of(suite)) {
        Some(i) => {
            proof {
                st.lemma_view();
                assert(st.view().contains_key(st.entries()[i as int].0));
            }
            let old = st.value_at(i);
            let v = SuiteRuntimeStatus { status: old.status.clone(), elapsed_secs: old.elapsed_secs, zip_file: Some(zip.to_string()) };
            st.set_value_at(i, v);
            assert(statuses_view(st) =~= before.insert(suite@, (before[suite@].0, before[suite@].1, Some(zip@))));
        },
        None => {},
    }
    st
}

/// Records the result zip of `suite` on the listed devices that run it.
pub fn update_busy_device_zip(registry: &mut BusyRegistry, suite: &str, serials: &Vec<String>, zip_file: &str)
    ensures
        registry_view(*final(registry)) == registry_view(*old(registry)).map_values(
            |d: DeviceView| with_suite_zip(d, suite@, string_views(serials@), zip_file@),
        ),
        registry_view(*final(registry)).dom() == registry_view(*old(registry)).dom(),
{
    let step = |d: BusyDevice| -> (r: BusyDevice)
        ensures
            device_view(r) == with_suite_zip(device_view(d), suite@, string_views(serials@), zip_file@),
        {
            if contains_string(serials, &chars_of(d.serial.as_str())) {
                let statuses = set_zip_in(d.suite_statuses, suite, zip_file);
                BusyDevice {
                    serial: d.serial,
                    is_userdebug: d.is_userdebug,
                    test_type: d.test_type,
                    model: d.model,
                    pda: d.pda,
                    run_id: d.run_id,
                    started_at: d.started_at,
                    result_dir: d.result_dir,
                    current_suite: d.current_suite,
                    suite_statuses: statuses,
                }
            } else {
                d
            }
        };
    rewrite_devices(registry, step, Ghost(|d: DeviceView| with_suite_zip(d, suite@, string_views(serials@), zip_file@)));
}

} // verus!

verus! {

pub proof fn lemma_map_values_insert<K, V, W>(m: Map<K, V>, k: K, v: V, f: spec_fn(V) -> W)
    ensures
        m.insert(k, v).map_values(f) == m.map_values(f).insert(k, f(v)),
{
    assert(m.insert(k, v).map_values(f) =~= m.map_values(f).insert(k, f(v)));
}

pub proof fn lemma_map_values_remove<K, V, W>(m: Map<K, V>, k: K, f: spec_fn(V) -> W)
    ensures
        m.remove(k).map_values(f) == m.map_values(f).remove(k),
{
    assert(m.remove(k).map_values(f) =~= m.map_values(f).remove(k));
}

/// The properties of each device, by serial, as the library reads them.
pub open spec fn device_prop_views(s: Seq<(String, StrMap<String>)>) -> Seq<(Seq<char>, Map<Seq<char>, Seq<char>>)> {
    s.map_values(|p: (String, StrMap<String>)| (p.0@, string_map_view(p.1.view())))
}

/// The record a run writes for a device it takes: userdebug when the request
/// lists it so or its build says so; model and PDA from its properties, or
/// `UNKNOWN`; no result directory yet; current suite `SOURCE`; no statuses.
pub open spec fn busy_device_for(
    request: RunSuiteRequest,
    serial: Seq<char>,
    props: Map<Seq<char>, Seq<char>>,
    run_id: Seq<char>,
    started_at: Seq<char>,
) -> DeviceView {
    (
        serial,
        string_views(request.userdebug_devices@).contains(serial) || is_userdebug_build_spec(
            prop_value(props, "ro.build.fingerprint"@),
            prop_value(props, "ro.build.type"@),
        ),
        request.test_type@,
        first_non_blank(seq![prop_value(props, "ro.product.model"@), "UNKNOWN"@], 0),
        first_non_blank(seq![prop_value(props, "ro.build.PDA"@), "UNKNOWN"@], 0),
        run_id,
        started_at,
        None,
        Some("SOURCE"@),
        Map::empty(),
    )
}

/// The registry after each device, in order, is recorded as taken by the run.
pub open spec fn marked(
    reg: Map<Seq<char>, DeviceView>,
    request: RunSuiteRequest,
    devices: Seq<(Seq<char>, Map<Seq<char>, Seq<char>>)>,
    run_id: Seq<char>,
    started_at: Seq<char>,
) -> Map<Seq<char>, DeviceView>
    decreases devices.len(),
{
    if devices.len() == 0 {
        reg
    } else {
        marked(reg, request, devices.drop_last(), run_id, started_at).insert(
            devices.last().0,
            busy_device_for(request, devices.last().0, devices.last().1, run_id, started_at),
        )
    }
}

fn new_busy_device(request: &RunSuiteRequest, serial: &String, props: &StrMap<String>, run_id: &str, started_at: &str) -> (d: BusyDevice)
    ensures
        device_view(d) == busy_device_for(*request, serial@, string_map_view(props.view()), run_id@, started_at@),
{
    let fingerprint = prop(props, "ro.build.fingerprint");
    let build_type = prop(props, "ro.build.type");
    let is_userdebug = contains_string(&request.userdebug_devices, &chars_of(serial.as_str()))
        || is_userdebug_build(fingerprint.as_str(), build_type.as_str());
    let models = vec![prop(props, "ro.product.model"), "UNKNOWN".to_string()];
    let pdas = vec![prop(props, "ro.build.PDA"), "UNKNOWN".to_string()];
    let model = first_non_empty(&models);
    let pda = first_non_empty(&pdas);
    let ghost pm = string_map_view(props.view());
    assert(str_views(models@) =~= seq![prop_value(pm, "ro.product.model"@), "UNKNOWN"@]);
    assert(str_views(pdas@) =~= seq![prop_value(pm, "ro.build.PDA"@), "UNKNOWN"@]);
    let d = BusyDevice {
        serial: serial.clone(),
        is_userdebug,
        test_type: request.test_type.clone(),
        model,
        pda,
        run_id: run_id.to_string(),
        started_at: started_at.to_string(),
        result_dir: None,
        current_suite: Some("SOURCE".to_string()),
        suite_statuses: StrMap::new(),
    };
    assert(statuses_view(d.suite_statuses) =~= Map::<Seq<char>, StatusView>::empty());
    d
}

/// Records each device as taken by the run, starting at `started_at`, with
/// the properties read from it.
pub fn mark_busy_devices(
    registry: &mut BusyRegistry,
    request: &RunSuiteRequest,
    devices: &Vec<(String, StrMap<String>)>,
    run_id: &str,
    started_at: &str,
)
    ensures
        registry_view(*final(registry)) == marked(
            registry_view(*old(registry)),
            *request,
            device_prop_views(devices@),
            run_id@,
            started_at@,
        ),
{
    let ghost start = registry_view(*registry);
    let ghost dv = device_prop_views(devices@);
    let mut i: usize = 0;
    while i < devices.len()
        invariant
            i <= devices.len(),
            dv == device_prop_views(devices@),
            registry_view(*registry) == marked(start, *request, dv.take(i as int), run_id@, started_at@),
        decreases devices.len() - i,
    {
        let d = new_busy_device(request, &devices[i].0, &devices[i].1, run_id, started_at);
        let ghost before = registry.devices.view();
        let ghost dd = d;
        registry.devices.insert(devices[i].0.clone(), d);
        proof {
            lemma_map_values_insert(before, devices@[i as int].0@, dd, |b: BusyDevice| device_view(b));
            assert(dv.take(i + 1).drop_last() =~= dv.take(i as int));
            assert(dv.take(i + 1).last() == dv[i as int]);
        }
        i = i + 1;
    }
    assert(dv.take(devices.len() as int) =~= dv);
}

/// Drops the listed devices from the registry.
pub fn clear_busy_devices(registry: &mut BusyRegistry, serials: &Vec<String>)
    ensures
        registry_view(*final(registry)) == registry_view(*old(registry)).remove_keys(
            string_views(serials@).to_set(),
        ),
{
    let ghost start = registry_view(*registry);
    let ghost sv = string_views(serials@);
    let mut i: usize = 0;
    assert(start.remove_keys(sv.take(0).to_set()) =~= start);
    while i < serials.len()
        invariant
            i <= serials.len(),
            sv == string_views(serials@),
            registry_view(*registry) == start.remove_keys(sv.take(i as int).to_set()),
        decreases serials.len() - i,
    {
        let ghost before = registry.devices.view();
        registry.devices.remove(serials[i].as_str());
        proof {
            lemma_map_values_remove(before, serials@[i as int]@, |b: BusyDevice| device_view(b));
            assert(sv.take(i + 1) =~= sv.take(i as int).push(sv[i as int]));
            sv.take(i as int).lemma_push_to_set_commute(sv[i as int]);
            assert(start.remove_keys(sv.take(i as int).to_set()).remove(sv[i as int]) =~= start.remove_keys(
                sv.take(i + 1).to_set(),
            ));
        }
        i = i + 1;
    }
    assert(sv.take(serials.len() as int) =~= sv);
}

/// The listed serials that the registry holds, in the order given.
pub open spec fn busy_among(reg: Map<Seq<char>, DeviceView>, serials: Seq<Seq<char>>) -> Seq<Seq<char>> {
    serials.filter(|s: Seq<char>| reg.contains_key(s))
}

pub fn busy_selected(registry: &BusyRegistry, selected: &Vec<String>) -> (r: Vec<String>)
    ensures
        string_views(r@) == busy_among(registry_view(*registry), string_views(selected@)),
{
    let ghost sv = string_views(selected@);
    let ghost reg = registry_view(*registry);
    let mut r: Vec<String> = Vec::new();
    let mut i: usize = 0;
    while i < selected.len()
        invariant
            i <= selected.len(),
            sv == string_views(selected@),
            reg == registry_view(*registry),
            string_views(r@) == busy_among(reg, sv.take(i as int)),
        decreases selected.len() - i,
    {
        let ghost before = r@;
        proof {
            assert(sv.take(i + 1).drop_last() =~= sv.take(i as int));
            assert(sv.take(i + 1).last() == selected@[i as int]@);
            assert(reg.contains_key(selected@[i as int]@) == registry.devices.view().contains_key(selected@[i as int]@));
            reveal_with_fuel(Seq::filter, 1);
        }
        if registry.devices.contains_key(selected[i].as_str()) {
            r.push(selected[i].clone());
            assert(string_views(r@) =~= string_views(before).push(selected@[i as int]@));
        }
        i = i + 1;
    }
    assert(sv.take(selected.len() as int) =~= sv);
    r
}

pub open spec fn busy_message(busy: Seq<Seq<char>>) -> Seq<char> {
    "Device busy: "@ + join_sep(busy, ", "@)
}

/// A run may start only on devices that no run holds: otherwise the error
/// names the busy ones.
pub fn check_devices_free(registry: &BusyRegistry, selected: &Vec<String>) -> (r: Result<(), String>)
    ensures
        busy_among(registry_view(*registry), string_views(selected@)).len() == 0 <==> r is Ok,
        r matches Err(e) ==> e@ == busy_message(busy_among(registry_view(*registry), string_views(selected@))),
{
    let busy = busy_selected(registry, selected);
    if busy.len() == 0 {
        Ok(())
    } else {
        let mut msg = "Device busy: ".to_string();
        let joined = join_strings(&busy, ", ");
        msg.append(joined.as_str());
        proof {
            assert(text_views(busy@) =~= string_views(busy@));
        }
        Err(msg)
    }
}

/// Where the registry of busy devices is kept under the root.
pub fn busy_registry_path(root: &str) -> (r: String)
    ensures
        r@ == crate::paths::join(root@, "busy.json"@),
{
    crate::paths::join_str(root, "busy.json")
}

} // verus!

verus! {

/// Marking devices for a run records every one of them as held by that run,
/// and leaves every other device's record as it was.
pub proof fn law_marked_devices_are_held(
    reg: Map<Seq<char>, DeviceView>,
    request: RunSuiteRequest,
    devices: Seq<(Seq<char>, Map<Seq<char>, Seq<char>>)>,
    run_id: Seq<char>,
    started_at: Seq<char>,
)
    ensures
        forall|i: int| 0 <= i < devices.len() ==>
            #[trigger] marked(reg, request, devices, run_id, started_at).contains_key(devices[i].0)
            && marked(reg, request, devices, run_id, started_at)[devices[i].0].5 == run_id,
        forall|k: Seq<char>| (forall|i: int| 0 <= i < devices.len() ==> devices[i].0 != k) ==>
            (#[trigger] marked(reg, request, devices, run_id, started_at).contains_key(k) == reg.contains_key(k))
            && (reg.contains_key(k) ==> marked(reg, request, devices, run_id, started_at)[k] == reg[k]),
    decreases devices.len(),
{
    if devices.len() > 0 {
        let rest = devices.drop_last();
        law_marked_devices_are_held(reg, request, rest, run_id, started_at);
        let m0 = marked(reg, request, rest, run_id, started_at);
        let last = devices.last();
        assert(marked(reg, request, devices, run_id, started_at) == m0.insert(
            last.0,
            busy_device_for(request, last.0, last.1, run_id, started_at),
        ));
        assert forall|i: int| 0 <= i < devices.len() implies
            #[trigger] marked(reg, request, devices, run_id, started_at).contains_key(devices[i].0)
            && marked(reg, request, devices, run_id, started_at)[devices[i].0].5 == run_id by {
            if i < devices.len() - 1 {
                assert(devices[i] == rest[i]);
            }
        }
        assert forall|k: Seq<char>| (forall|i: int| 0 <= i < devices.len() ==> devices[i].0 != k) implies
            (#[trigger] marked(reg, request, devices, run_id, started_at).contains_key(k) == reg.contains_key(k))
            && (reg.contains_key(k) ==> marked(reg, request, devices, run_id, started_at)[k] == reg[k]) by {
            assert(devices[devices.len() - 1].0 != k);
            assert forall|i: int| 0 <= i < rest.len() implies rest[i].0 != k by {
                assert(rest[i] == devices[i]);
            }
        }
    }
}

/// Once devices are marked for a run, a request that selects any of them is
/// refused as busy.
pub proof fn law_held_device_is_refused(
    reg: Map<Seq<char>, DeviceView>,
    request: RunSuiteRequest,
    devices: Seq<(Seq<char>, Map<Seq<char>, Seq<char>>)>,
    run_id: Seq<char>,
    started_at: Seq<char>,
    selected: Seq<Seq<char>>,
    i: int,
    j: int,
)
    requires
        0 <= i < devices.len(),
        0 <= j < selected.len(),
        selected[j] == devices[i].0,
    ensures
        busy_among(marked(reg, request, devices, run_id, started_at), selected).len() > 0,
{
    law_marked_devices_are_held(reg, request, devices, run_id, started_at);
    let m = marked(reg, request, devices, run_id, started_at);
    let f = |s: Seq<char>| m.contains_key(s);
    assert(f(selected[j]));
    selected.lemma_filter_contains(f, j);
}

/// Cleared devices are free again: a request for them finds none busy.
pub proof fn law_cleared_devices_are_free(reg: Map<Seq<char>, DeviceView>, serials: Seq<Seq<char>>)
    ensures
        busy_among(reg.remove_keys(serials.to_set()), serials).len() == 0,
{
    let m = reg.remove_keys(serials.to_set());
    let f = |s: Seq<char>| m.contains_key(s);
    let b = serials.filter(f);
    if b.len() > 0 {
        serials.lemma_filter_pred(f, 0);
        assert(b.contains(b[0]));
        serials.lemma_filter_contains_rev(f, b[0]);
        assert(serials.contains(b[0]));
        assert(serials.to_set().contains(b[0]));
        assert(false);
    }
}

} // verus!
