use gba_agentic_runner::devices::device_props_from_output;
use gba_agentic_runner::report::{
    device_info, is_deviceinfo_backup, latest_by_time, ro_xml_text, wifi_connect_args, wifi_outcome,
};

#[test]
fn ro_xml_lists_properties_and_apps() {
    let props = device_props_from_output("[ro.build.fingerprint]: [a<b]\n[ro.build.PDA]: [P1]");
    let xml = ro_xml_text(
        &props,
        "feature:android.hardware.type.watch\n",
        "com.samsung.android.messaging",
        "packageName=com.android.chrome",
        "[ro.com.google.clientidbase]: [android-&samsung]\nnoise",
    );
    assert!(xml.starts_with("<RO>\n\n<ro.build.fingerprint>a&lt;b\n</ro.build.fingerprint>\n"));
    assert!(xml.contains("<ro.build.PDA>P1\n</ro.build.PDA>\n"));
    assert!(xml.contains("<ril.sw_ver>\n</ril.sw_ver>\n"));
    assert!(xml.contains("\n<isWatch>true</isWatch>\n"));
    assert!(xml.contains("\n<message>Samsung Message</message>\n"));
    assert!(xml.contains("\n<browser>Chrome</browser>\n"));
    assert!(xml.contains("\n<ro.com.google.clientidbase>android-&amp;samsung</ro.com.google.clientidbase>\n"));
    assert!(xml.ends_with("\n<ro.version>4.4</ro.version>\n</RO>\n"));
}

#[test]
fn ro_xml_defaults() {
    let props = device_props_from_output("");
    let xml = ro_xml_text(&props, "", "", "", "");
    assert!(xml.contains("<isWatch>false</isWatch>"));
    assert!(xml.contains("<message>Not Found</message>"));
    assert!(xml.contains("<browser>Not Found</browser>"));
}

#[test]
fn wifi_outcomes() {
    assert_eq!(
        wifi_outcome("Lab", "pw", "Connection FAILED for pw"),
        Err("Connection FAILED for ********".to_string())
    );
    assert_eq!(wifi_outcome("Lab", "pw", "  "), Ok("connect requested for \"Lab\"".to_string()));
    assert_eq!(wifi_outcome("Lab", "", " ok "), Ok("ok".to_string()));
    assert_eq!(wifi_connect_args("Lab", ""), vec!["shell", "cmd", "wifi", "connect-network", "Lab", "open"]);
    assert_eq!(
        wifi_connect_args("Lab", "pw"),
        vec!["shell", "cmd", "wifi", "connect-network", "Lab", "wpa2", "pw"]
    );
}

#[test]
fn device_info_from_line_and_props() {
    let props = device_props_from_output(
        "[ro.build.fingerprint]: [samsung/x:16/userdebug/k]\n[gsm.version.baseband]: [CP1]\n[ro.build.version.release]: [16]",
    );
    let info = device_info("R5X device usb:1 model:SM_S928B", "R5X", "device", &props, "10.0.0.2", None);
    assert!(info.is_userdebug);
    assert_eq!(info.model, "SM_S928B");
    assert_eq!(info.cp, "CP1");
    assert_eq!(info.android, "16");
    assert_eq!(info.ip, "10.0.0.2");
    assert!(!info.busy);
    assert_eq!(info.busy_reason, "");
}

#[test]
fn deviceinfo_files() {
    assert!(is_deviceinfo_backup("PropertyDeviceInfo.deviceinfo.json.bak"));
    assert!(!is_deviceinfo_backup("PropertyDeviceInfo.deviceinfo.json"));
    assert!(!is_deviceinfo_backup("other.bak"));
    let items = vec![
        ("a".to_string(), Some(5u128)),
        ("b".to_string(), None),
        ("c".to_string(), Some(9u128)),
        ("d".to_string(), Some(9u128)),
    ];
    assert_eq!(latest_by_time(&items), Some("d".to_string()));
    assert_eq!(latest_by_time(&vec![("x".to_string(), None)]), None);
}
