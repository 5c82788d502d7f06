use gba_agentic_runner::preflight::{
    auto_root_result, check_command, check_dir, check_file, configured_auto_root, ghidra_cache_path,
    ghidra_line, ghidra_temp_name, ghidra_updater_error, ghidra_version, parse_retry_session_id,
    retry_session_error, run_workspaces, tool_is_copied, workspace_entry, workspace_install_path,
    WorkspaceEntry,
};

#[test]
fn check_lines() {
    assert_eq!(check_command("adb", true), "OK command: adb");
    assert_eq!(check_command("java", false), "MISSING command: java");
    assert_eq!(check_file("GTS/x", "/a/b", true), "OK file: GTS/x");
    assert_eq!(check_file("GTS/x", "/a/b", false), "MISSING file: GTS/x (/a/b)");
    assert_eq!(check_dir("CTS", "/a/CTS", false), "MISSING dir: CTS (/a/CTS)");
    assert_eq!(check_dir("CTS", "/a/CTS", true), "OK dir: CTS");
    assert_eq!(ghidra_line(&Ok(" ready \n".to_string())), "OK Ghidra: ready");
    assert_eq!(ghidra_line(&Err("gone".to_string())), "MISS Ghidra: gone");
}

#[test]
fn auto_root_choice() {
    assert_eq!(configured_auto_root(&Some("/x".to_string()), "/d"), "/x");
    assert_eq!(configured_auto_root(&Some(" ".to_string()), "/d"), "/d");
    assert_eq!(configured_auto_root(&None, "/d"), "/d");
    assert_eq!(auto_root_result("/x", true, "/d", true), Ok("/x".to_string()));
    assert_eq!(auto_root_result("/x", false, "/d", true), Ok("/d".to_string()));
    assert_eq!(auto_root_result("/x", false, "/d", false), Err("AUTO root does not exist: /x".to_string()));
}

#[test]
fn retry_sessions_are_found() {
    let listing = "Session  Pass  Fail  Result Directory\n  3   10  2  2025.01.01_10.00.00 \nabc 2025.01.02\n 7 9 9 2025.01.02\n";
    assert_eq!(parse_retry_session_id(listing, "2025.01.01_10.00.00"), Some("3".to_string()));
    assert_eq!(parse_retry_session_id(listing, "2025.01.02"), Some("7".to_string()));
    assert_eq!(parse_retry_session_id(listing, "2030"), None);
    assert_eq!(
        retry_session_error("GTS", "d1", "/l.log", 42),
        "GTS: cannot find retry session for result directory d1. Check /l.log. Last l r output had 42 bytes."
    );
}

#[test]
fn ghidra_archives() {
    assert_eq!(ghidra_version("ghidra_11.3_PUBLIC_20250101.zip"), Ok("11.3".to_string()));
    assert_eq!(
        ghidra_version("other.zip"),
        Err("Cannot derive Ghidra version from other.zip".to_string())
    );
    assert_eq!(
        ghidra_cache_path("11.3", "g.zip"),
        "/tmp/ghidra_cache/https:/github.com/NationalSecurityAgency/ghidra/releases/download/Ghidra_11.3_build/g.zip"
    );
    assert_eq!(ghidra_temp_name("g.zip", 12), ".g.zip.12.tmp");
    assert_eq!(ghidra_updater_error("  "), "Ghidra updater failed");
    assert_eq!(ghidra_updater_error(" bad \n"), "Ghidra updater failed: bad");
}

#[test]
fn workspaces() {
    assert_eq!(workspace_entry("results", false), WorkspaceEntry::FreshDir);
    assert_eq!(workspace_entry("logs", true), WorkspaceEntry::FreshDir);
    assert_eq!(workspace_entry("subplans", true), WorkspaceEntry::CopyTree);
    assert_eq!(workspace_entry("subplans", false), WorkspaceEntry::Link);
    assert_eq!(workspace_entry("tools", true), WorkspaceEntry::ToolsDir);
    assert_eq!(workspace_entry("testcases", true), WorkspaceEntry::Link);
    assert!(tool_is_copied("gts-tradefed"));
    assert!(!tool_is_copied("tradefed.jar"));
    assert_eq!(run_workspaces("/auto", "run one"), "/auto/.gba-workspaces/run_one");
    assert_eq!(
        workspace_install_path("/auto", "r1", 171, "/auto/GTS/13/android-gts"),
        "/auto/.gba-workspaces/r1/suite_ab/android-gts"
    );
}

#[test]
fn workspaces_differ_per_run() {
    let first = workspace_install_path("/tmp/x", "run-one", 7, "/tmp/x/android-gts");
    let second = workspace_install_path("/tmp/x", "run-two", 7, "/tmp/x/android-gts");
    assert_ne!(first, second);
    assert_ne!(run_workspaces("/tmp/x", "run-one"), run_workspaces("/tmp/x", "run-two"));
    assert_eq!(run_workspaces("/tmp/x", "run/one"), run_workspaces("/tmp/x", "run_one"));
}
