use gba_agentic_runner::monitor::{
    adb_device_state, disconnected_devices, suite_log_has_completion_marker, ChildPoll, Monitor,
    MonitorEffect, MonitorNext,
};

fn texts(effects: &[MonitorEffect]) -> Vec<String> {
    effects
        .iter()
        .map(|e| match e {
            MonitorEffect::Log(l) => format!("log:{l}"),
            MonitorEffect::Status { status, elapsed_secs } => format!("status:{status}@{elapsed_secs}"),
        })
        .collect()
}

#[test]
fn exit_and_wait_failure_finish() {
    let mut m = Monitor::new("CTS".to_string(), 100, true);
    let (e, next) = m.on_child(ChildPoll::Exited(3));
    assert!(e.is_empty());
    assert_eq!(next, MonitorNext::Finish { code: 3, terminate: false, wait_child: false });
    let (e, next) = m.on_child(ChildPoll::WaitFailed("boom".to_string()));
    assert_eq!(texts(&e), vec!["log:[CTS] wait failed: boom"]);
    assert_eq!(next, MonitorNext::Finish { code: 1, terminate: false, wait_child: false });
    assert_eq!(m.on_child(ChildPoll::Running).1, MonitorNext::ReadMarker);
}

#[test]
fn marker_closes_console() {
    let mut m = Monitor::new("GTS".to_string(), 100, false);
    let (e, next) = m.on_marker(1000, true);
    assert_eq!(texts(&e), vec!["log:[GTS] completion marker detected; closing tradefed console."]);
    assert_eq!(next, MonitorNext::Finish { code: 0, terminate: true, wait_child: true });
}

#[test]
fn devices_are_checked_every_five_seconds() {
    let mut m = Monitor::new("CTS".to_string(), 100, true);
    assert_eq!(m.on_marker(0, false).1, MonitorNext::CheckDevices);
    let (e, next) = m.on_devices(0, &vec![]);
    assert_eq!(texts(&e), vec!["status:Running@0"]);
    assert_eq!(next, MonitorNext::Sleep);
    let (e, next) = m.on_marker(4999, false);
    assert_eq!(texts(&e), vec!["status:Running@4"]);
    assert_eq!(next, MonitorNext::Sleep);
    assert_eq!(m.on_marker(5000, false).1, MonitorNext::CheckDevices);
}

#[test]
fn lost_devices_wait_then_time_out() {
    let mut m = Monitor::new("STS".to_string(), 100000, true);
    m.on_marker(0, false);
    let (e, next) = m.on_devices(0, &vec!["A:offline".to_string()]);
    assert_eq!(
        texts(&e),
        vec![
            "log:[runner] STS: waiting device reconnect (0/300s): A:offline",
            "status:Waiting device reconnect@0",
            "status:Running@0",
        ]
    );
    assert_eq!(next, MonitorNext::Sleep);
    m.on_marker(301_000, false);
    let (e, next) = m.on_devices(301_000, &vec!["A:offline".to_string(), "B:err".to_string()]);
    assert_eq!(
        texts(&e),
        vec![
            "log:[runner] STS: waiting device reconnect (301/300s): A:offline,B:err",
            "status:Waiting device reconnect@301",
            "log:[runner] STS: reconnect timeout; terminating tradefed.",
        ]
    );
    assert_eq!(next, MonitorNext::Finish { code: 125, terminate: true, wait_child: true });
}

#[test]
fn reconnect_clears_the_wait() {
    let mut m = Monitor::new("CTS".to_string(), 100000, false);
    m.on_marker(0, false);
    m.on_devices(0, &vec!["A:offline".to_string()]);
    m.on_marker(6000, false);
    let (e, next) = m.on_devices(6000, &vec![]);
    assert_eq!(texts(&e), vec!["log:[runner] CTS: device reconnected; continuing monitor."]);
    assert_eq!(next, MonitorNext::Sleep);
    assert!(m.disconnected_since_ms.is_none());
}

#[test]
fn suite_timeout_stops_with_124() {
    let mut m = Monitor::new("CTS".to_string(), 10, true);
    m.on_marker(0, false);
    m.on_devices(0, &vec![]);
    assert_eq!(m.on_marker(11_000, false).1, MonitorNext::CheckDevices);
    let (e, next) = m.on_devices(11_000, &vec![]);
    assert_eq!(texts(&e), vec!["status:Timeout@11"]);
    assert_eq!(next, MonitorNext::Finish { code: 124, terminate: true, wait_child: false });
}

#[test]
fn device_states() {
    assert_eq!(adb_device_state("  device\n"), "device");
    assert_eq!(adb_device_state(" \n"), "unknown");
    let checks = vec![
        ("A".to_string(), Ok("device".to_string())),
        ("B".to_string(), Ok("offline".to_string())),
        ("C".to_string(), Err("no device".to_string())),
    ];
    assert_eq!(disconnected_devices(&checks), vec!["B:offline", "C:no device"]);
}

#[test]
fn completion_marker_in_recent_lines() {
    assert!(suite_log_has_completion_marker("a\nResult/Log Location: /x\nb"));
    assert!(suite_log_has_completion_marker("=============== Summary ===============\n"));
    assert!(!suite_log_has_completion_marker("nothing here"));
    let mut old = String::from("Result/Log Location\n");
    for _ in 0..130 {
        old.push_str("line\n");
    }
    assert!(!suite_log_has_completion_marker(&old));
}
