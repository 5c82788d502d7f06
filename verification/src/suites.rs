use vstd::prelude::*;

use crate::registry::{clone_opt, opt_view, BusyDevice, BusyRegistry, SuiteRuntimeStatus};
use crate::strmap::StrMap;
use crate::text::{str_eq, text_views};

verus! {

/// The status of one suite of one run, over the devices that run it.
pub struct SuiteGroup {
    pub run_id: String,
    pub suite: String,
    pub status: String,
    pub elapsed_secs: u64,
    pub devices: Vec<String>,
    pub zip_file: Option<String>,
}

/// Run id, suite, status, elapsed seconds, devices and zip.
pub type GroupView = (Seq<char>, Seq<char>, Seq<char>, u64, Seq<Seq<char>>, Option<Seq<char>>);

pub open spec fn group_view(g: SuiteGroup) -> GroupView {
    (g.run_id@, g.suite@, g.status@, g.elapsed_secs, text_views(g.devices@), opt_view(g.zip_file))
}

/// One device's status for one suite: run id, suite, status, elapsed
/// seconds, zip and the device's serial.
pub type StatusItem = (Seq<char>, Seq<char>, Seq<char>, u64, Option<Seq<char>>, Seq<char>);

pub open spec fn device_items(d: BusyDevice) -> Seq<StatusItem> {
    d.suite_statuses.entries().map_values(
        |e: (Seq<char>, SuiteRuntimeStatus)| (d.run_id@, e.0, e.1.status@, e.1.elapsed_secs, opt_view(e.1.zip_file), d.serial@),
    )
}

pub open spec fn all_items(ds: Seq<BusyDevice>) -> Seq<StatusItem>
    decreases ds.len(),
{
    if ds.len() == 0 {
        seq![]
    } else {
        all_items(ds.drop_last()) + device_items(ds.last())
    }
}

pub open spec fn registry_devices(r: BusyRegistry) -> Seq<BusyDevice> {
    r.devices.entries().map_values(|p: (Seq<char>, BusyDevice)| p.1)
}

/// The group of a run and suite among the groups, if there is one.
pub open spec fn group_index(gs: Seq<GroupView>, run_id: Seq<char>, suite: Seq<char>, i: int) -> Option<int>
    decreases gs.len() - i,
{
    if i < 0 || i >= gs.len() {
        None
    } else if gs[i].0 == run_id && gs[i].1 == suite {
        Some(i)
    } else {
        group_index(gs, run_id, suite, i + 1)
    }
}

pub proof fn lemma_group_index(gs: Seq<GroupView>, run_id: Seq<char>, suite: Seq<char>, i: int)
    requires
        0 <= i,
    ensures
        group_index(gs, run_id, suite, i) matches Some(k) ==> i <= k < gs.len(),
    decreases gs.len() - i,
{
    if i < gs.len() && !(gs[i].0 == run_id && gs[i].1 == suite) {
        lemma_group_index(gs, run_id, suite, i + 1);
    }
}

/// A status taken into its group: the latest status, the longest elapsed
/// time, the device listed, and the latest zip that is known.
pub open spec fn add_item(gs: Seq<GroupView>, it: StatusItem) -> Seq<GroupView> {
    match group_index(gs, it.0, it.1, 0) {
        Some(k) => gs.update(k, (
            gs[k].0,
            gs[k].1,
            it.2,
            if it.3 > gs[k].3 { it.3 } else { gs[k].3 },
            gs[k].4.push(it.5),
            if it.4 is Some { it.4 } else { gs[k].5 },
        )),
        None => gs.push((it.0, it.1, it.2, it.3, seq![it.5], it.4)),
    }
}

pub open spec fn grouped(items: Seq<StatusItem>) -> Seq<GroupView>
    decreases items.len(),
{
    if items.len() == 0 {
        seq![]
    } else {
        add_item(grouped(items.drop_last()), items.last())
    }
}

pub open spec fn groups_view(v: Seq<SuiteGroup>) -> Seq<GroupView> {
    v.map_values(|g: SuiteGroup| group_view(g))
}

fn find_group(groups: &Vec<SuiteGroup>, run_id: &String, suite: &String) -> (r: Option<usize>)
    ensures
        match r {
            Some(k) => group_index(groups_view(groups@), run_id@, suite@, 0) == Some(k as int),
            None => group_index(groups_view(groups@), run_id@, suite@, 0) is None,
        },
{
    let ghost gv = groups_view(groups@);
    let mut k: usize = 0;
    while k < groups.len()
        invariant
            k <= groups.len(),
            gv == groups_view(groups@),
            group_index(gv, run_id@, suite@, 0) == group_index(gv, run_id@, suite@, k as int),
        decreases groups.len() - k,
    {
        assert(gv[k as int] == group_view(groups@[k as int]));
        if str_eq(groups[k].run_id.as_str(), run_id.as_str()) && str_eq(groups[k].suite.as_str(), suite.as_str()) {
            return Some(k);
        }
        k = k + 1;
    }
    None
}

fn add_status(groups: &mut Vec<SuiteGroup>, d: &BusyDevice, suite: &String, st: &SuiteRuntimeStatus)
    ensures
        groups_view(final(groups)@) == add_item(
            groups_view(old(groups)@),
            (d.run_id@, suite@, st.status@, st.elapsed_secs, opt_view(st.zip_file), d.serial@),
        ),
{
    let ghost gv = groups_view(groups@);
    let ghost it: StatusItem = (d.run_id@, suite@, st.status@, st.elapsed_secs, opt_view(st.zip_file), d.serial@);
    let found = find_group(groups, &d.run_id, suite);
    proof {
        lemma_group_index(gv, it.0, it.1, 0);
    }
    if found.is_some() {
        let k = found.unwrap();
        let mut g = SuiteGroup {
            run_id: String::new(),
            suite: String::new(),
            status: String::new(),
            elapsed_secs: 0,
            devices: Vec::new(),
            zip_file: None,
        };
        let mut taken: Vec<SuiteGroup> = Vec::new();
        std::mem::swap(&mut taken, groups);
        let ghost before = taken@;
        let old_g = taken.remove(k);
        let mut devices = old_g.devices;
        let ghost old_devices = text_views(devices@);
        devices.push(d.serial.clone());
        assert(text_views(devices@) =~= old_devices.push(d.serial@));
        g = SuiteGroup {
            run_id: old_g.run_id,
            suite: old_g.suite,
            status: st.status.clone(),
            elapsed_secs: if st.elapsed_secs > old_g.elapsed_secs { st.elapsed_secs } else { old_g.elapsed_secs },
            devices,
            zip_file: if st.zip_file.is_some() { clone_opt(&st.zip_file) } else { old_g.zip_file },
        };
        taken.insert(k, g);
        assert(groups_view(taken@) =~= gv.update(k as int, (
            gv[k as int].0,
            gv[k as int].1,
            it.2,
            if it.3 > gv[k as int].3 { it.3 } else { gv[k as int].3 },
            gv[k as int].4.push(it.5),
            if it.4 is Some { it.4 } else { gv[k as int].5 },
        )));
        *groups = taken;
    } else {
        let mut devices: Vec<String> = Vec::new();
        devices.push(d.serial.clone());
        assert(text_views(devices@) =~= seq![d.serial@]);
        groups.push(SuiteGroup {
            run_id: d.run_id.clone(),
            suite: suite.clone(),
            status: st.status.clone(),
            elapsed_secs: st.elapsed_secs,
            devices,
            zip_file: clone_opt(&st.zip_file),
        });
        assert(groups_view(groups@) =~= gv.push((it.0, it.1, it.2, it.3, seq![it.5], it.4)));
    }
}

/// The suites running on the registry's devices, grouped by run and suite,
/// in the order the registry holds them.
pub fn running_suite_statuses(registry: &BusyRegistry) -> (r: Vec<SuiteGroup>)
    ensures
        groups_view(r@) == grouped(all_items(registry_devices(*registry))),
{
    let ghost ds = registry_devices(*registry);
    let mut groups: Vec<SuiteGroup> = Vec::new();
    let n = registry.devices.len();
    let mut i: usize = 0;
    assert(groups_view(groups@) =~= grouped(all_items(ds.take(0))));
    while i < n
        invariant
            i <= n,
            n == registry.devices.entries().len(),
            ds == registry_devices(*registry),
            groups_view(groups@) == grouped(all_items(ds.take(i as int))),
        decreases n - i,
    {
        let d = registry.devices.value_at(i);
        assert(ds[i as int] == *d);
        let ghost prefix = all_items(ds.take(i as int));
        let ghost items = device_items(*d);
        let m = d.suite_statuses.len();
        let mut j: usize = 0;
        assert(prefix + items.take(0) =~= prefix);
        while j < m
            invariant
                j <= m,
                m == d.suite_statuses.entries().len(),
                items == device_items(*d),
                items.len() == m,
                groups_view(groups@) == grouped(prefix + items.take(j as int)),
            decreases m - j,
        {
            let suite = d.suite_statuses.key_at(j);
            let st = d.suite_statuses.value_at(j);
            add_status(&mut groups, d, suite, st);
            proof {
                assert((prefix + items.take(j + 1)).drop_last() =~= prefix + items.take(j as int));
                assert((prefix + items.take(j + 1)).last() == items[j as int]);
            }
            j = j + 1;
        }
        proof {
            assert(items.take(m as int) =~= items);
            assert(ds.take(i + 1).drop_last() =~= ds.take(i as int));
            assert(ds.take(i + 1).last() == ds[i as int]);
        }
        i = i + 1;
    }
    assert(ds.take(n as int) =~= ds);
    groups
}

} // verus!
