use gba_agentic_runner::table::{property_value, suite_of_path, tools_table};

#[test]
fn properties_are_read() {
    let text = "# c\nversion = 16_r3\nbuild_number=12345\nversion=x\n";
    assert_eq!(property_value(text, "version"), "16_r3");
    assert_eq!(property_value(text, "build_number"), "12345");
    assert_eq!(property_value(text, "missing"), "");
}

#[test]
fn jar_suite_from_path() {
    assert_eq!(suite_of_path("/auto/cts/16/android-cts/tools/cts-tradefed.jar"), "CTS");
    assert_eq!(suite_of_path("/auto/x/tools/a-tradefed.jar"), "TEST");
}

#[test]
fn tools_table_is_aligned_and_sorted() {
    let rows = vec![
        vec!["GTS".to_string(), "13.1".to_string(), "99".to_string()],
        vec!["CTS".to_string(), "16_r3".to_string(), "12345".to_string()],
    ];
    assert_eq!(
        tools_table(&rows),
        "│ Suite │ Version │ Build │\n│ CTS   │ 16_r3   │ 12345 │\n│ GTS   │ 13.1    │ 99    │"
    );
    assert_eq!(tools_table(&vec![]), "│ Suite │ Version │ Build │");
}
