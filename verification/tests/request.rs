use gba_agentic_runner::request::{validate_request, RunSuiteRequest};
use gba_agentic_runner::strmap::StrMap;

fn request(test_type: &str, user: &[&str], userdebug: &[&str]) -> RunSuiteRequest {
    RunSuiteRequest {
        run_id: None,
        auto_root: "/auto".to_string(),
        test_type: test_type.to_string(),
        laundry_zip_path: Some("/tmp/l.zip".to_string()),
        selected_laundry_results: Vec::new(),
        user_devices: user.iter().map(|s| s.to_string()).collect(),
        userdebug_devices: userdebug.iter().map(|s| s.to_string()).collect(),
        retry_count: 0,
        wifi_enabled: false,
        wifi_ssid: String::new(),
        wifi_password: String::new(),
        timeout_secs: 3600,
    }
}

fn props(model: &str) -> StrMap<String> {
    let mut m = StrMap::new();
    m.insert("ro.product.model".to_string(), model.to_string());
    m
}

#[test]
fn valid_requests_pass() {
    assert_eq!(validate_request(&request("MR", &["A"], &[]), &vec![]), Ok(()));
    assert_eq!(validate_request(&request("STS", &[], &["B"]), &vec![]), Ok(()));
    assert_eq!(validate_request(&request("SMR", &[], &["B"]), &vec![]), Ok(()));
    assert_eq!(validate_request(&request("Other", &[], &[]), &vec![]), Ok(()));
}

#[test]
fn missing_device_groups_are_refused() {
    assert_eq!(
        validate_request(&request("Laundry Normal", &[], &["B"]), &vec![]),
        Err("Laundry Normal needs at least one non-userdebug device".to_string())
    );
    assert_eq!(
        validate_request(&request("SKU", &[], &["B"]), &vec![]),
        Err("SKU needs at least one non-userdebug device".to_string())
    );
    assert_eq!(
        validate_request(&request("STS", &["A"], &[]), &vec![]),
        Err("STS needs at least one userdebug device".to_string())
    );
    assert_eq!(
        validate_request(&request("SMR", &[], &[]), &vec![]),
        Err("SMR needs at least one non-userdebug or userdebug device".to_string())
    );
}

#[test]
fn laundry_needs_its_zip() {
    let mut r = request("Laundry Normal", &["A"], &[]);
    r.laundry_zip_path = Some("  ".to_string());
    assert_eq!(validate_request(&r, &vec![]), Err("Laundry Normal needs laundry zip file".to_string()));
    let mut r = request("Laundry SMR", &["A"], &[]);
    r.laundry_zip_path = None;
    assert_eq!(validate_request(&r, &vec![props("X")]), Err("Laundry SMR needs laundry zip file".to_string()));
}

#[test]
fn laundry_smr_pairs_devices_with_results() {
    let mut r = request("Laundry SMR", &["A"], &[]);
    r.selected_laundry_results = vec!["r/sts/1".to_string(), "r/cts/2".to_string()];
    assert_eq!(
        validate_request(&r, &vec![props("X")]),
        Err("Laundry SMR needs selected USER and USERDEBUG devices".to_string())
    );
    let mut r = request("Laundry SMR", &[], &["B"]);
    r.selected_laundry_results = vec!["google/1".to_string()];
    assert_eq!(
        validate_request(&r, &vec![props("X")]),
        Err("Laundry SMR needs selected USER device for CTS/GTS".to_string())
    );
    let mut r = request("Laundry SMR", &["A"], &[]);
    r.selected_laundry_results = vec!["Security/1".to_string()];
    assert_eq!(
        validate_request(&r, &vec![props("X")]),
        Err("Laundry SMR needs selected USERDEBUG device for STS".to_string())
    );
    let r = request("Laundry SMR", &[], &[]);
    assert_eq!(validate_request(&r, &vec![]), Err("Laundry SMR needs at least one device".to_string()));
}

#[test]
fn laundry_smr_needs_one_model() {
    let r = request("Laundry SMR", &["A"], &["B"]);
    assert_eq!(
        validate_request(&r, &vec![props("SM-A"), props("SM-B"), props("SM-A")]),
        Err("Laundry SMR devices must use the same model: SM-A, SM-B".to_string())
    );
    assert_eq!(validate_request(&r, &vec![props("SM-A"), props("SM-A")]), Ok(()));
    assert_eq!(validate_request(&r, &vec![StrMap::new(), props(" ")]), Ok(()));
}
