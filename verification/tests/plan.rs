use gba_agentic_runner::plan::{
    combine_exit_codes, cts_command, cts_subplan, final_exit_code, gts_command, laundry_log_name,
    needs_ghidra, result_zip_name, retry_args, retry_command, retry_zip_name, run_id_or_default,
    run_plan, run_title, serial_args, session_name, sharded, sts_command, suite_log_name, CtsGtsFlow,
    RunPlan,
};

fn devs(v: &[&str]) -> Vec<String> {
    v.iter().map(|s| s.to_string()).collect()
}

#[test]
fn test_types_map_to_plans() {
    assert_eq!(run_plan("Cuci SMR"), Ok(RunPlan::CtsThenGts(CtsGtsFlow::CuciSmr)));
    assert_eq!(run_plan("MR"), Ok(RunPlan::CtsThenGts(CtsGtsFlow::Mr)));
    assert_eq!(run_plan("SKU"), Ok(RunPlan::CtsThenGts(CtsGtsFlow::Sku)));
    assert_eq!(run_plan("STS"), Ok(RunPlan::Sts));
    assert_eq!(run_plan("SMR"), Ok(RunPlan::Smr));
    assert_eq!(run_plan("Laundry SMR"), Ok(RunPlan::LaundrySmr));
    assert_eq!(run_plan("Laundry Normal"), Ok(RunPlan::LaundryNormal));
    assert_eq!(run_plan("Nightly"), Err("Unknown test type: Nightly".to_string()));
}

#[test]
fn flows_give_subplans_and_gts_commands() {
    assert_eq!(cts_subplan(CtsGtsFlow::CuciSmr), "ctssmr");
    assert_eq!(gts_command(CtsGtsFlow::CuciSmr), "run gts --subplan gtssmr");
    assert_eq!(cts_subplan(CtsGtsFlow::Mr), "normal");
    assert_eq!(gts_command(CtsGtsFlow::Mr), "run gts --subplan normal");
    assert_eq!(cts_subplan(CtsGtsFlow::Sku), "ctssku");
    assert_eq!(gts_command(CtsGtsFlow::Sku), "run gts-variant");
    assert_eq!(cts_subplan(CtsGtsFlow::Smr), "ctssmr");
    assert_eq!(gts_command(CtsGtsFlow::Smr), "run gts-smr");
}

#[test]
fn ghidra_is_needed_for_sts_runs() {
    assert!(needs_ghidra("STS"));
    assert!(needs_ghidra("Laundry SMR"));
    assert!(!needs_ghidra("MR"));
}

#[test]
fn exit_codes_combine() {
    assert_eq!(combine_exit_codes(&vec![0, 0]), 0);
    assert_eq!(combine_exit_codes(&vec![0, 124]), 1);
    assert_eq!(final_exit_code("SMR", &vec![]), Err("SMR has no runnable device group".to_string()));
    assert_eq!(final_exit_code("SMR", &vec![0]), Ok(0));
    assert_eq!(final_exit_code("SMR", &vec![0, 1]), Ok(1));
}

#[test]
fn retry_and_serial_options() {
    assert_eq!(retry_args(0), "");
    assert_eq!(
        retry_args(3),
        " --enable-token-sharding --max-testcase-run-count 3 --retry-strategy RETRY_ANY_FAILURE"
    );
    assert_eq!(serial_args(&devs(&["A1", "B2"])), " --serial A1 --serial B2");
    assert_eq!(serial_args(&devs(&[])), "");
}

#[test]
fn console_commands() {
    let d = devs(&["A1", "B2"]);
    assert_eq!(
        cts_command("ctssmr", &d, ""),
        "run cts --subplan ctssmr --shard-count 2 --serial A1 --serial B2"
    );
    assert_eq!(
        sharded("run gts-smr", &d, " --x"),
        "run gts-smr --shard-count 2 --serial A1 --serial B2 --x"
    );
    assert_eq!(
        retry_command("7", &devs(&["A1"])),
        "run retry --retry 7 --retry-type NOT_EXECUTED --shard-count 1 --serial A1"
    );
}

#[test]
fn sts_command_depends_on_device_count() {
    let opt = " --test-arg com.android.compatibility.common.tradefed.testtype.JarHostTest:set-option:android.security.sts.KernelLtsTest:acknowledge_kernel_update_requirement_warning_failure:true";
    assert_eq!(sts_command(&devs(&["A1"]), ""), format!("run sts-dynamic-incremental{opt} --serial A1"));
    assert_eq!(
        sts_command(&devs(&["A1", "B2"]), " --r"),
        format!("run sts{opt} --shard-count 2 --serial A1 --serial B2 --r")
    );
}

#[test]
fn run_ids_and_names() {
    assert_eq!(run_id_or_default(&Some("abc".to_string()), "MR", "17"), "abc");
    assert_eq!(run_id_or_default(&Some("  ".to_string()), "Cuci SMR", "17"), "Cuci_SMR_17");
    assert_eq!(run_id_or_default(&None, "MR", "9"), "MR_9");
    assert_eq!(
        session_name("Cuci SMR", "SM-S928B", "S928BXXU1", 2, "1700", "Cuci SMR_1700"),
        "Cuci_SMR_SM-S928B_S928BXXU1_2devs_1700_Cuci_SMR_1700"
    );
    assert_eq!(
        run_title("01/02/2025, 10:00:00", "MR", "SM-X", "PDA1", &devs(&["A1", "B2"])),
        "[01/02/2025, 10:00:00] MR | SM-X\nPDA1 [A1,B2]"
    );
}

#[test]
fn file_names() {
    assert_eq!(suite_log_name("cts", "SM X", 2), "cts_SM_X_2devs.log");
    assert_eq!(laundry_log_name("retry", "GTS", 3, 1), "laundry_retry_gts_3_1devs.log");
    assert_eq!(result_zip_name("CTS", "SM X", "PDA", &devs(&["A1", "B2"])), "CTS_SM_X_PDA_A1_B2.zip");
    assert_eq!(
        retry_zip_name("GTS", 2, "M", "P", &devs(&["A1"]), "2025.01.01_10.00.00"),
        "GTS_retry2_M_P_A1_2025.01.01_10.00.00.zip"
    );
}
