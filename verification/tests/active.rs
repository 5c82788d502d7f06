use gba_agentic_runner::active::ActiveRun;

#[test]
fn runs_start_and_finish() {
    let mut a = ActiveRun::new();
    assert!(!a.running());
    a.start_run("/auto".to_string(), &vec!["B".to_string(), "A".to_string(), "B".to_string()]);
    a.start_run("/auto".to_string(), &vec!["C".to_string()]);
    assert!(a.running());
    assert_eq!(a.busy_serials(), vec!["A", "B", "C"]);
    a.set_log_file("/auto/Results/x/Log/cts.log".to_string());
    let log = a.finish_run(&vec!["A".to_string(), "B".to_string()], true);
    assert_eq!(log.as_deref(), Some("/auto/Results/x/Log/cts.log"));
    assert!(a.running());
    assert_eq!(a.root().as_deref(), Some("/auto"));
    a.finish_run(&vec!["C".to_string()], true);
    assert!(!a.running());
    assert!(a.root().is_none());
    assert!(a.log_file().is_none());
}

#[test]
fn processes_keep_a_run_going() {
    let mut a = ActiveRun::new();
    a.start_run("/auto".to_string(), &vec!["A".to_string()]);
    a.register_pid("run1".to_string(), 11);
    a.register_pid("run2".to_string(), 22);
    a.finish_run(&vec!["A".to_string()], false);
    assert!(a.running());
    assert_eq!(a.cancel_targets(&Some("run2".to_string())), Some(vec![22]));
    assert_eq!(a.cancel_targets(&None), Some(vec![11, 22]));
    a.unregister_pid(11);
    assert_eq!(a.cancel_targets(&None), Some(vec![22]));
}

#[test]
fn cancel_and_reset_clear_everything() {
    let mut a = ActiveRun::new();
    assert_eq!(a.cancel_targets(&None), None);
    a.start_run("/auto".to_string(), &vec!["A".to_string()]);
    a.register_pid("run1".to_string(), 5);
    let (root, serials) = a.cancel_all();
    assert_eq!(root.as_deref(), Some("/auto"));
    assert_eq!(serials, vec!["A"]);
    assert!(!a.running());
    assert_eq!(a.cancel_targets(&None), None);
    a.set_log_file("x".to_string());
    a.reset();
    assert!(a.log_file().is_none());
}
