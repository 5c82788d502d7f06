use gba_agentic_runner::devices::device_props_from_output;
use gba_agentic_runner::registry::{
    busy_registry_path, check_devices_free, clear_busy_devices, mark_busy_devices,
    update_busy_device_result_dir, update_busy_device_suite, update_busy_device_zip, BusyRegistry,
};
use gba_agentic_runner::request::RunSuiteRequest;
use gba_agentic_runner::strmap::StrMap;

fn request(user: &[&str], userdebug: &[&str]) -> RunSuiteRequest {
    RunSuiteRequest {
        run_id: None,
        auto_root: "/auto".to_string(),
        test_type: "SMR".to_string(),
        laundry_zip_path: None,
        selected_laundry_results: Vec::new(),
        user_devices: user.iter().map(|s| s.to_string()).collect(),
        userdebug_devices: userdebug.iter().map(|s| s.to_string()).collect(),
        retry_count: 0,
        wifi_enabled: false,
        wifi_ssid: String::new(),
        wifi_password: String::new(),
        timeout_secs: 60,
    }
}

fn marked() -> BusyRegistry {
    let mut reg = BusyRegistry { devices: StrMap::new() };
    let props_a = device_props_from_output(
        "[ro.product.model]: [SM-A]\n[ro.build.PDA]: [PDA1]\n[ro.build.fingerprint]: [x/user/y]",
    );
    let props_b = device_props_from_output("[ro.build.type]: [UserDebug]");
    let devices = vec![("A".to_string(), props_a), ("B".to_string(), props_b)];
    mark_busy_devices(&mut reg, &request(&["A"], &[]), &devices, "run1", "1700");
    reg
}

#[test]
fn marking_records_devices() {
    let reg = marked();
    let a = reg.devices.get("A").unwrap();
    assert_eq!(a.model, "SM-A");
    assert_eq!(a.pda, "PDA1");
    assert!(!a.is_userdebug);
    assert_eq!(a.run_id, "run1");
    assert_eq!(a.started_at, "1700");
    assert_eq!(a.current_suite.as_deref(), Some("SOURCE"));
    assert!(a.result_dir.is_none());
    let b = reg.devices.get("B").unwrap();
    assert_eq!(b.model, "UNKNOWN");
    assert_eq!(b.pda, "UNKNOWN");
    assert!(b.is_userdebug);
}

#[test]
fn held_devices_are_refused_and_freed_by_clear() {
    let mut reg = marked();
    assert_eq!(
        check_devices_free(&reg, &vec!["C".to_string(), "B".to_string(), "A".to_string()]),
        Err("Device busy: B, A".to_string())
    );
    assert_eq!(check_devices_free(&reg, &vec!["C".to_string()]), Ok(()));
    clear_busy_devices(&mut reg, &vec!["A".to_string(), "B".to_string()]);
    assert_eq!(check_devices_free(&reg, &vec!["A".to_string(), "B".to_string()]), Ok(()));
    assert_eq!(reg.devices.len(), 0);
}

#[test]
fn updates_touch_only_the_run() {
    let mut reg = marked();
    update_busy_device_result_dir(&mut reg, "run1", "/auto/Results/x");
    assert_eq!(reg.devices.get("A").unwrap().result_dir.as_deref(), Some("/auto/Results/x"));
    update_busy_device_result_dir(&mut reg, "other", "/nope");
    assert_eq!(reg.devices.get("B").unwrap().result_dir.as_deref(), Some("/auto/Results/x"));
    update_busy_device_suite(&mut reg, "run1", "CTS", "Running", 42, "A");
    let a = reg.devices.get("A").unwrap();
    assert_eq!(a.current_suite.as_deref(), Some("CTS"));
    let st = a.suite_statuses.get("CTS").unwrap();
    assert_eq!(st.status, "Running");
    assert_eq!(st.elapsed_secs, 42);
    assert!(reg.devices.get("B").unwrap().suite_statuses.get("CTS").is_none());
    update_busy_device_zip(&mut reg, "CTS", &vec!["A".to_string(), "B".to_string()], "CTS_x.zip");
    assert_eq!(
        reg.devices.get("A").unwrap().suite_statuses.get("CTS").unwrap().zip_file.as_deref(),
        Some("CTS_x.zip")
    );
    assert!(reg.devices.get("B").unwrap().suite_statuses.get("CTS").is_none());
    update_busy_device_suite(&mut reg, "run1", "CTS", "Test Done", 50, "A,B");
    let st = reg.devices.get("A").unwrap().suite_statuses.get("CTS").unwrap();
    assert_eq!(st.status, "Test Done");
    assert_eq!(st.zip_file.as_deref(), Some("CTS_x.zip"));
    assert_eq!(reg.devices.len(), 2);
}

#[test]
fn registry_lives_under_the_root() {
    assert_eq!(busy_registry_path("/auto"), "/auto/busy.json");
}
