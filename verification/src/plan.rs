use vstd::prelude::*;

use crate::names::{append_decimal, sanitize_name, sanitized};
use crate::num::decimal;
use crate::text::{
    chars_of, is_blank, join_sep, join_strings, lowercase, str_eq, text_views, to_lowercase, trim,
};

verus! {

/// How the CTS-then-GTS flow is run for a test type.
#[derive(PartialEq, Eq, Structural, Clone, Copy, Debug)]
pub enum CtsGtsFlow {
    CuciSmr,
    Mr,
    Sku,
    Smr,
}

/// What a test type runs.
#[derive(PartialEq, Eq, Structural, Clone, Copy, Debug)]
pub enum RunPlan {
    LaundrySmr,
    LaundryNormal,
    CtsThenGts(CtsGtsFlow),
    Sts,
    /// CTS then GTS on the user devices, STS beside it on the userdebug ones.
    Smr,
}

pub open spec fn plan_for(tt: Seq<char>) -> Option<RunPlan> {
    if tt == "Laundry SMR"@ {
        Some(RunPlan::LaundrySmr)
    } else if tt == "Laundry Normal"@ {
        Some(RunPlan::LaundryNormal)
    } else if tt == "Cuci SMR"@ {
        Some(RunPlan::CtsThenGts(CtsGtsFlow::CuciSmr))
    } else if tt == "MR"@ {
        Some(RunPlan::CtsThenGts(CtsGtsFlow::Mr))
    } else if tt == "SKU"@ {
        Some(RunPlan::CtsThenGts(CtsGtsFlow::Sku))
    } else if tt == "STS"@ {
        Some(RunPlan::Sts)
    } else if tt == "SMR"@ {
        Some(RunPlan::Smr)
    } else {
        None
    }
}

/// The plan of a test type; an unknown one is refused.
pub fn run_plan(test_type: &str) -> (r: Result<RunPlan, String>)
    ensures
        match r {
            Ok(p) => plan_for(test_type@) == Some(p),
            Err(e) => plan_for(test_type@) is None && e@ == "Unknown test type: "@ + test_type@,
        },
{
    if str_eq(test_type, "Laundry SMR") {
        Ok(RunPlan::LaundrySmr)
    } else if str_eq(test_type, "Laundry Normal") {
        Ok(RunPlan::LaundryNormal)
    } else if str_eq(test_type, "Cuci SMR") {
        Ok(RunPlan::CtsThenGts(CtsGtsFlow::CuciSmr))
    } else if str_eq(test_type, "MR") {
        Ok(RunPlan::CtsThenGts(CtsGtsFlow::Mr))
    } else if str_eq(test_type, "SKU") {
        Ok(RunPlan::CtsThenGts(CtsGtsFlow::Sku))
    } else if str_eq(test_type, "STS") {
        Ok(RunPlan::Sts)
    } else if str_eq(test_type, "SMR") {
        Ok(RunPlan::Smr)
    } else {
        let mut e = "Unknown test type: ".to_string();
        e.append(test_type);
        Err(e)
    }
}

pub open spec fn flow_cts_subplan(f: CtsGtsFlow) -> Seq<char> {
    match f {
        CtsGtsFlow::CuciSmr => "ctssmr"@,
        CtsGtsFlow::Mr => "normal"@,
        CtsGtsFlow::Sku => "ctssku"@,
        CtsGtsFlow::Smr => "ctssmr"@,
    }
}

pub open spec fn flow_gts_command(f: CtsGtsFlow) -> Seq<char> {
    match f {
        CtsGtsFlow::CuciSmr => "run gts --subplan gtssmr"@,
        CtsGtsFlow::Mr => "run gts --subplan normal"@,
        CtsGtsFlow::Sku => "run gts-variant"@,
        CtsGtsFlow::Smr => "run gts-smr"@,
    }
}

/// The CTS subplan of a flow.
pub fn cts_subplan(f: CtsGtsFlow) -> (r: String)
    ensures
        r@ == flow_cts_subplan(f),
{
    match f {
        CtsGtsFlow::CuciSmr => "ctssmr".to_string(),
        CtsGtsFlow::Mr => "normal".to_string(),
        CtsGtsFlow::Sku => "ctssku".to_string(),
        CtsGtsFlow::Smr => "ctssmr".to_string(),
    }
}

/// The GTS console command of a flow, before its shard and serial options.
pub fn gts_command(f: CtsGtsFlow) -> (r: String)
    ensures
        r@ == flow_gts_command(f),
{
    match f {
        CtsGtsFlow::CuciSmr => "run gts --subplan gtssmr".to_string(),
        CtsGtsFlow::Mr => "run gts --subplan normal".to_string(),
        CtsGtsFlow::Sku => "run gts-variant".to_string(),
        CtsGtsFlow::Smr => "run gts-smr".to_string(),
    }
}

/// STS and Laundry SMR need Ghidra prepared before they start.
pub fn needs_ghidra(test_type: &str) -> (r: bool)
    ensures
        r == (test_type@ == "STS"@ || test_type@ == "Laundry SMR"@),
{
    str_eq(test_type, "STS") || str_eq(test_type, "Laundry SMR")
}

pub open spec fn all_zero(codes: Seq<i32>) -> bool {
    forall|i: int| 0 <= i < codes.len() ==> codes[i] == 0
}

/// 0 when every part succeeded, else 1.
pub fn combine_exit_codes(codes: &Vec<i32>) -> (r: i32)
    ensures
        r == (if all_zero(codes@) { 0i32 } else { 1i32 }),
{
    let mut i: usize = 0;
    while i < codes.len()
        invariant
            i <= codes.len(),
            forall|j: int| 0 <= j < i ==> codes@[j] == 0,
        decreases codes.len() - i,
    {
        if codes[i] != 0 {
            return 1;
        }
        i = i + 1;
    }
    0
}

/// The exit code of a whole run: an error when no device group ran.
pub fn final_exit_code(test_type: &str, codes: &Vec<i32>) -> (r: Result<i32, String>)
    ensures
        codes.len() == 0 <==> r is Err,
        r matches Err(e) ==> e@ == test_type@ + " has no runnable device group"@,
        r matches Ok(c) ==> c == (if all_zero(codes@) { 0i32 } else { 1i32 }),
{
    if codes.len() == 0 {
        let mut e = test_type.to_string();
        e.append(" has no runnable device group");
        Err(e)
    } else {
        Ok(combine_exit_codes(codes))
    }
}

/// The run id asked for, or one made from the test type and a timestamp.
pub open spec fn run_id_for(requested: Option<Seq<char>>, test_type: Seq<char>, stamp: Seq<char>) -> Seq<char> {
    match requested {
        Some(id) => if trim(id).len() > 0 { id } else { sanitized(test_type) + "_"@ + stamp },
        None => sanitized(test_type) + "_"@ + stamp,
    }
}

pub fn run_id_or_default(requested: &Option<String>, test_type: &str, stamp: &str) -> (r: String)
    ensures
        r@ == run_id_for(
            match requested {
                Some(s) => Some(s@),
                None => None,
            },
            test_type@,
            stamp@,
        ),
{
    match requested {
        Some(id) => {
            if !is_blank(&chars_of(id.as_str())) {
                return id.clone();
            }
        },
        None => {},
    }
    let mut r = sanitize_name(test_type);
    r.append("_");
    r.append(stamp);
    r
}

/// Texts of ` --serial <device>` for each device.
pub open spec fn serial_args_text(devices: Seq<Seq<char>>) -> Seq<char>
    decreases devices.len(),
{
    if devices.len() == 0 {
        seq![]
    } else {
        serial_args_text(devices.drop_last()) + " --serial "@ + devices.last()
    }
}

pub fn serial_args(devices: &Vec<String>) -> (r: String)
    ensures
        r@ == serial_args_text(text_views(devices@)),
{
    let ghost dv = text_views(devices@);
    let mut r = String::new();
    let mut i: usize = 0;
    while i < devices.len()
        invariant
            i <= devices.len(),
            dv == text_views(devices@),
            r@ == serial_args_text(dv.take(i as int)),
        decreases devices.len() - i,
    {
        r.append(" --serial ");
        r.append(devices[i].as_str());
        proof {
            assert(dv.take(i + 1).drop_last() =~= dv.take(i as int));
            assert(dv.take(i + 1).last() == devices@[i as int]@);
        }
        i = i + 1;
    }
    assert(dv.take(devices.len() as int) =~= dv);
    r
}

pub open spec fn retry_args_text(count: u32) -> Seq<char> {
    if count == 0 {
        seq![]
    } else {
        " --enable-token-sharding --max-testcase-run-count "@ + decimal(count as nat)
            + " --retry-strategy RETRY_ANY_FAILURE"@
    }
}

/// The tradefed options that retry failed cases `count` times (none for 0).
pub fn retry_args(count: u32) -> (r: String)
    ensures
        r@ == retry_args_text(count),
{
    if count == 0 {
        String::new()
    } else {
        let mut r = " --enable-token-sharding --max-testcase-run-count ".to_string();
        append_decimal(&mut r, count as u64);
        r.append(" --retry-strategy RETRY_ANY_FAILURE");
        r
    }
}

pub open spec fn shard_text(n: nat) -> Seq<char> {
    " --shard-count "@ + decimal(n)
}

/// `command` sharded over the devices, with their serials and `extra` after.
pub open spec fn sharded_command(command: Seq<char>, devices: Seq<Seq<char>>, extra: Seq<char>) -> Seq<char> {
    command + shard_text(devices.len()) + serial_args_text(devices) + extra
}

pub fn sharded(command: &str, devices: &Vec<String>, extra: &str) -> (r: String)
    ensures
        r@ == sharded_command(command@, text_views(devices@), extra@),
{
    let mut r = command.to_string();
    r.append(" --shard-count ");
    append_decimal(&mut r, devices.len() as u64);
    let s = serial_args(devices);
    r.append(s.as_str());
    r.append(extra);
    r
}

/// `run cts --subplan <subplan>` over the devices, with the retry options.
pub fn cts_command(subplan: &str, devices: &Vec<String>, retry: &str) -> (r: String)
    ensures
        r@ == sharded_command("run cts --subplan "@ + subplan@, text_views(devices@), retry@),
{
    let mut c = "run cts --subplan ".to_string();
    c.append(subplan);
    sharded(c.as_str(), devices, retry)
}

pub open spec fn sts_option() -> Seq<char> {
    " --test-arg com.android.compatibility.common.tradefed.testtype.JarHostTest:set-option:android.security.sts.KernelLtsTest:acknowledge_kernel_update_requirement_warning_failure:true"@
}

/// Several devices share the full `sts` plan; one device runs the dynamic
/// incremental plan.
pub open spec fn sts_plan_for(n: nat) -> Seq<char> {
    if n > 1 { "sts"@ } else { "sts-dynamic-incremental"@ }
}

pub open spec fn sts_command_text(devices: Seq<Seq<char>>, retry: Seq<char>) -> Seq<char> {
    "run "@ + sts_plan_for(devices.len()) + sts_option() + (if devices.len() > 1 {
        shard_text(devices.len())
    } else {
        seq![]
    }) + serial_args_text(devices) + retry
}

pub fn sts_plan(n: usize) -> (r: String)
    ensures
        r@ == sts_plan_for(n as nat),
{
    if n > 1 { "sts".to_string() } else { "sts-dynamic-incremental".to_string() }
}

pub fn sts_command(devices: &Vec<String>, retry: &str) -> (r: String)
    ensures
        r@ == sts_command_text(text_views(devices@), retry@),
{
    let mut r = "run ".to_string();
    let plan = sts_plan(devices.len());
    r.append(plan.as_str());
    r.append(" --test-arg com.android.compatibility.common.tradefed.testtype.JarHostTest:set-option:android.security.sts.KernelLtsTest:acknowledge_kernel_update_requirement_warning_failure:true");
    if devices.len() > 1 {
        r.append(" --shard-count ");
        append_decimal(&mut r, devices.len() as u64);
    }
    let s = serial_args(devices);
    r.append(s.as_str());
    r.append(retry);
    r
}

/// The console command that retries the not-executed cases of a session.
pub fn retry_command(session_id: &str, devices: &Vec<String>) -> (r: String)
    ensures
        r@ == sharded_command(
            "run retry --retry "@ + session_id@ + " --retry-type NOT_EXECUTED"@,
            text_views(devices@),
            seq![],
        ),
{
    let mut c = "run retry --retry ".to_string();
    c.append(session_id);
    c.append(" --retry-type NOT_EXECUTED");
    proof {
        reveal_strlit("");
    }
    let r = sharded(c.as_str(), devices, "");
    assert(r@ =~= sharded_command(c@, text_views(devices@), seq![]));
    r
}

/// CTS retries use session 0; other suites look their session up.
pub fn fixed_retry_session(suite: &str) -> (r: Option<String>)
    ensures
        suite@ == "CTS"@ ==> (r matches Some(s) && s@ == "0"@),
        suite@ != "CTS"@ ==> r is None,
{
    if str_eq(suite, "CTS") { Some("0".to_string()) } else { None }
}

/// The result folder of a run under `Results`.
pub open spec fn session_name_text(
    test_type: Seq<char>,
    model: Seq<char>,
    pda: Seq<char>,
    devices: nat,
    suffix: Seq<char>,
    run_id: Seq<char>,
) -> Seq<char> {
    sanitized(test_type) + "_"@ + sanitized(model) + "_"@ + sanitized(pda) + "_"@ + decimal(devices)
        + "devs_"@ + suffix + "_"@ + sanitized(run_id)
}

pub fn session_name(test_type: &str, model: &str, pda: &str, devices: usize, suffix: &str, run_id: &str) -> (r: String)
    ensures
        r@ == session_name_text(test_type@, model@, pda@, devices as nat, suffix@, run_id@),
{
    let mut r = sanitize_name(test_type);
    r.append("_");
    r.append(sanitize_name(model).as_str());
    r.append("_");
    r.append(sanitize_name(pda).as_str());
    r.append("_");
    append_decimal(&mut r, devices as u64);
    r.append("devs_");
    r.append(suffix);
    r.append("_");
    r.append(sanitize_name(run_id).as_str());
    r
}

/// The title a run shows in the log list.
pub open spec fn run_title_text(stamp: Seq<char>, test_type: Seq<char>, model: Seq<char>, pda: Seq<char>, devices: Seq<Seq<char>>) -> Seq<char> {
    "["@ + stamp + "] "@ + test_type + " | "@ + model + "\n"@ + pda + " ["@ + join_sep(devices, ","@) + "]"@
}

pub fn run_title(stamp: &str, test_type: &str, model: &str, pda: &str, devices: &Vec<String>) -> (r: String)
    ensures
        r@ == run_title_text(stamp@, test_type@, model@, pda@, text_views(devices@)),
{
    let mut r = "[".to_string();
    r.append(stamp);
    r.append("] ");
    r.append(test_type);
    r.append(" | ");
    r.append(model);
    r.append("\n");
    r.append(pda);
    r.append(" [");
    r.append(join_strings(devices, ",").as_str());
    r.append("]");
    r
}

/// `<prefix>_<model>_<n>devs.log`, the log of one suite run.
pub open spec fn suite_log_text(prefix: Seq<char>, model: Seq<char>, devices: nat) -> Seq<char> {
    prefix + "_"@ + sanitized(model) + "_"@ + decimal(devices) + "devs.log"@
}

pub fn suite_log_name(prefix: &str, model: &str, devices: usize) -> (r: String)
    ensures
        r@ == suite_log_text(prefix@, model@, devices as nat),
{
    let mut r = prefix.to_string();
    r.append("_");
    r.append(sanitize_name(model).as_str());
    r.append("_");
    append_decimal(&mut r, devices as u64);
    r.append("devs.log");
    r
}

/// `laundry_<kind>_<suite>_<index>_<n>devs.log`, the log of one laundry retry step.
pub open spec fn laundry_log_text(kind: Seq<char>, suite: Seq<char>, index: nat, devices: nat) -> Seq<char> {
    "laundry_"@ + kind + "_"@ + lowercase(suite) + "_"@ + decimal(index) + "_"@ + decimal(devices) + "devs.log"@
}

pub fn laundry_log_name(kind: &str, suite: &str, index: u64, devices: usize) -> (r: String)
    ensures
        r@ == laundry_log_text(kind@, suite@, index as nat, devices as nat),
{
    let mut r = "laundry_".to_string();
    r.append(kind);
    r.append("_");
    r.append(to_lowercase(suite).as_str());
    r.append("_");
    append_decimal(&mut r, index);
    r.append("_");
    append_decimal(&mut r, devices as u64);
    r.append("devs.log");
    r
}

/// The devices of a run as one name: their serials joined by `_`, sanitized.
pub open spec fn devices_tag(devices: Seq<Seq<char>>) -> Seq<char> {
    sanitized(join_sep(devices, "_"@))
}

fn devices_tag_exec(devices: &Vec<String>) -> (r: String)
    ensures
        r@ == devices_tag(text_views(devices@)),
{
    sanitize_name(join_strings(devices, "_").as_str())
}

/// `<suite>_<model>_<pda>_<devices>.zip`, where a suite's result zip is kept.
pub open spec fn result_zip_text(suite: Seq<char>, model: Seq<char>, pda: Seq<char>, devices: Seq<Seq<char>>) -> Seq<char> {
    suite + "_"@ + sanitized(model) + "_"@ + sanitized(pda) + "_"@ + devices_tag(devices) + ".zip"@
}

pub fn result_zip_name(suite: &str, model: &str, pda: &str, devices: &Vec<String>) -> (r: String)
    ensures
        r@ == result_zip_text(suite@, model@, pda@, text_views(devices@)),
{
    let mut r = suite.to_string();
    r.append("_");
    r.append(sanitize_name(model).as_str());
    r.append("_");
    r.append(sanitize_name(pda).as_str());
    r.append("_");
    r.append(devices_tag_exec(devices).as_str());
    r.append(".zip");
    r
}

/// `<suite>_retry<index>_<model>_<pda>_<devices>_<result>.zip`, a retry's result zip.
pub open spec fn retry_zip_text(
    suite: Seq<char>,
    index: nat,
    model: Seq<char>,
    pda: Seq<char>,
    devices: Seq<Seq<char>>,
    result: Seq<char>,
) -> Seq<char> {
    suite + "_retry"@ + decimal(index) + "_"@ + sanitized(model) + "_"@ + sanitized(pda) + "_"@
        + devices_tag(devices) + "_"@ + sanitized(result) + ".zip"@
}

pub fn retry_zip_name(suite: &str, index: u64, model: &str, pda: &str, devices: &Vec<String>, result: &str) -> (r: String)
    ensures
        r@ == retry_zip_text(suite@, index as nat, model@, pda@, text_views(devices@), result@),
{
    let mut r = suite.to_string();
    r.append("_retry");
    append_decimal(&mut r, index);
    r.append("_");
    r.append(sanitize_name(model).as_str());
    r.append("_");
    r.append(sanitize_name(pda).as_str());
    r.append("_");
    r.append(devices_tag_exec(devices).as_str());
    r.append("_");
    r.append(sanitize_name(result).as_str());
    r.append(".zip");
    r
}

/// `<kind>_<devices>_<stamp>.deviceinfo.json`, a deviceinfo kept for the run.
pub open spec fn deviceinfo_copy_text(kind: Seq<char>, devices: Seq<Seq<char>>, stamp: Seq<char>) -> Seq<char> {
    kind + "_"@ + devices_tag(devices) + "_"@ + stamp + ".deviceinfo.json"@
}

pub fn deviceinfo_copy_name(kind: &str, devices: &Vec<String>, stamp: &str) -> (r: String)
    ensures
        r@ == deviceinfo_copy_text(kind@, text_views(devices@), stamp@),
{
    let mut r = kind.to_string();
    r.append("_");
    r.append(devices_tag_exec(devices).as_str());
    r.append("_");
    r.append(stamp);
    r.append(".deviceinfo.json");
    r
}

/// `results_<suite>_<devices>_<stamp>`, where a suite's results are moved aside.
pub open spec fn moved_results_text(suite: Seq<char>, devices: Seq<Seq<char>>, stamp: Seq<char>) -> Seq<char> {
    "results_"@ + lowercase(suite) + "_"@ + devices_tag(devices) + "_"@ + stamp
}

pub fn moved_results_name(suite: &str, devices: &Vec<String>, stamp: &str) -> (r: String)
    ensures
        r@ == moved_results_text(suite@, text_views(devices@), stamp@),
{
    let mut r = "results_".to_string();
    r.append(to_lowercase(suite).as_str());
    r.append("_");
    r.append(devices_tag_exec(devices).as_str());
    r.append("_");
    r.append(stamp);
    r
}

/// The first lines of a suite log.
pub open spec fn log_header_text(suite: Seq<char>, stamp: Seq<char>, command: Seq<char>) -> Seq<char> {
    "=== "@ + suite + " START "@ + stamp + " ===\nCOMMAND: "@ + command + "\n"@
}

pub fn log_header(suite: &str, stamp: &str, command: &str) -> (r: String)
    ensures
        r@ == log_header_text(suite@, stamp@, command@),
{
    let mut r = "=== ".to_string();
    r.append(suite);
    r.append(" START ");
    r.append(stamp);
    r.append(" ===\nCOMMAND: ");
    r.append(command);
    r.append("\n");
    r
}

/// The status a finished suite shows.
pub fn finished_status(exit_code: i32) -> (r: String)
    ensures
        r@ == (if exit_code == 0 { "Completed"@ } else { "Failed"@ }),
{
    if exit_code == 0 { "Completed".to_string() } else { "Failed".to_string() }
}

/// The status a finished laundry retry shows.
pub fn laundry_retry_status(exit_code: i32) -> (r: String)
    ensures
        r@ == (if exit_code == 0 { "Test Done"@ } else { "Failed"@ }),
{
    if exit_code == 0 { "Test Done".to_string() } else { "Failed".to_string() }
}

} // verus!

verus! {

/// A run error about something not found is also raised as a tool error.
pub fn is_tool_error(err: &str) -> (r: bool)
    ensures
        r == crate::text::contains(err@, "not found"@),
{
    crate::text::str_contains(err, "not found")
}

/// Whether a console command has run past its time (whole seconds).
pub fn console_timed_out(elapsed_secs: u64, timeout_secs: u64) -> (r: bool)
    ensures
        r == (elapsed_secs > timeout_secs),
{
    elapsed_secs > timeout_secs
}

/// Why a console command was stopped.
pub fn console_timeout_error(suite: &str, command: &str) -> (r: String)
    ensures
        r@ == suite@ + " console command timed out: "@ + command@,
{
    let mut r = suite.to_string();
    r.append(" console command timed out: ");
    r.append(command);
    r
}

} // verus!
