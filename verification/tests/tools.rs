use gba_agentic_runner::devices::device_props_from_output;
use gba_agentic_runner::tools::{
    command_result, cts_version_hint, laundry_suite_root_plan, lamp_plan, laundry_version_check,
    mismatch_root_plan, mismatch_warning, missing_tool_error, sts_root_path, suite_needed,
    suite_root_plan, tradefed_tool_for_suite, SuiteRootPlan, VersionCheck,
};

fn info(name: &str, version: &str, build: &str) -> Option<(String, String, String)> {
    Some((name.to_string(), version.to_string(), build.to_string()))
}

#[test]
fn tradefed_tools() {
    assert_eq!(tradefed_tool_for_suite("/s", "GTS"), Ok("/s/tools/gts-tradefed".to_string()));
    assert_eq!(tradefed_tool_for_suite("/s", "XTS"), Err("Unknown suite: XTS".to_string()));
}

#[test]
fn version_hints_and_roots() {
    let oneui = device_props_from_output("[ro.build.version.oneui]: [80500]\n[ro.build.version.release]: [16]");
    assert_eq!(cts_version_hint(&oneui), "16.1");
    let plain = device_props_from_output(
        "[ro.build.version.release]: [15.0.1]\n[ro.build.version.security_patch]: [2025-06-01]",
    );
    assert_eq!(cts_version_hint(&plain), "15");
    match suite_root_plan("STS", &plain) {
        Ok(SuiteRootPlan::Sts { month, android }) => {
            assert_eq!(month, "06");
            assert_eq!(android, "15");
            assert_eq!(sts_root_path("/auto", &month, &android), "/auto/STS/06/15/android-sts");
        },
        _ => panic!("expected an STS plan"),
    }
    match suite_root_plan("GTS", &plain) {
        Ok(SuiteRootPlan::Versioned { suite, suite_dir, hint }) => {
            assert_eq!((suite.as_str(), suite_dir.as_str(), hint.as_str()), ("GTS", "android-gts", ""));
        },
        _ => panic!("expected a versioned plan"),
    }
    assert!(matches!(suite_root_plan("X", &plain), Err(e) if e == "Unknown suite: X"));
    match laundry_suite_root_plan("CTS", &Some("16_r2".to_string()), &plain) {
        Ok(SuiteRootPlan::Versioned { hint, .. }) => assert_eq!(hint, "16_r2"),
        _ => panic!("expected a versioned plan"),
    }
    assert!(mismatch_root_plan("STS", &Some("1".to_string())).is_none());
    assert!(mismatch_root_plan("GTS", &Some("13".to_string())).is_some());
}

#[test]
fn laundry_versions_are_checked() {
    assert!(matches!(laundry_version_check("CTS", &None, "1", "16_r1"), VersionCheck::Unchecked));
    match laundry_version_check("CTS", &info("CTS", "16_r3", "100"), "100", "16_r3") {
        VersionCheck::Matched(l) => assert_eq!(
            l,
            "[preflight] CTS: version checked and matched (laundry: CTS 16_r3 / 100, local tool: 100)"
        ),
        _ => panic!("expected a match"),
    }
    match laundry_version_check("CTS", &info("CTS", "16_r3", "100"), "200", "16_r4") {
        VersionCheck::WarnOnly(l) => assert_eq!(
            l,
            "[preflight][WARN] CTS: ignoring 16_r3 build mismatch (laundry: CTS 16_r3 / 100, local tool: 200)."
        ),
        _ => panic!("expected a warning"),
    }
    match laundry_version_check("GTS", &info("GTS", "13_r1", "100"), "200", "14_r1") {
        VersionCheck::Mismatch(e) => assert_eq!(
            e,
            "Mismatched tools version for GTS:\nLaundry file has version: GTS 13_r1 (100)\nLocal tool has version: (200)\nPlease align laundry file and local tools."
        ),
        _ => panic!("expected a mismatch"),
    }
    assert_eq!(
        mismatch_warning("STS", "STS", "1_r1", "5", "6", "1_r1"),
        Some("Mismatched tools version for STS (ignored: true):\nLaundry file has version: STS 1_r1 (5)\nLocal tool has version: (6)\nPlease align laundry file and local tools.".to_string())
    );
    assert_eq!(mismatch_warning("STS", "STS", "1_r1", "5", "5", ""), None);
    assert!(suite_needed("GTS", 0, 0));
    assert!(!suite_needed("CTS", 0, 3));
    assert!(suite_needed("STS", 0, 3));
    assert_eq!(
        missing_tool_error("CTS", "/t", true),
        "CTS tool required by laundry zip but not found: /t"
    );
}

#[test]
fn small_plans() {
    let p = lamp_plan(true);
    assert!(p.wake);
    assert_eq!((p.brightness, p.screen_off_timeout_ms), (255, 600000));
    let p = lamp_plan(false);
    assert_eq!((p.brightness, p.screen_off_timeout_ms), (10, 60000));
    assert_eq!(command_result(true, " out \n", "", "0"), Ok("out".to_string()));
    assert_eq!(command_result(false, "", " err ", "1"), Err("err".to_string()));
    assert_eq!(
        command_result(false, "", "", "exit status: 1"),
        Err("Command failed with status exit status: 1".to_string())
    );
}
