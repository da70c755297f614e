use pony_core::monitor::{
    is_critical_pid, kill_precheck, kill_process, kill_result, should_skip, should_skip_given,
    TrimCounts,
};

const SELF_PID: u32 = 4242;

#[test]
fn test_critical_pid_skip() {
    assert!(is_critical_pid(0));
    assert!(is_critical_pid(4));
    assert!(is_critical_pid(8));
    assert!(!is_critical_pid(9));
    assert!(!is_critical_pid(1234));
}

#[test]
fn test_should_skip_self() {
    let system = sysinfo::System::new();
    assert!(should_skip(&system, SELF_PID, SELF_PID));
}

#[test]
fn test_should_skip_missing_pid() {
    let system = sysinfo::System::new();
    assert!(!should_skip(&system, 999_999, SELF_PID));
}

#[test]
fn should_skip_by_session() {
    assert!(should_skip_given(1000, SELF_PID, Some(0)));
    assert!(!should_skip_given(1000, SELF_PID, Some(1)));
    assert!(!should_skip_given(1000, SELF_PID, None));
    assert!(should_skip_given(4, SELF_PID, Some(1)));
}

#[test]
fn monitor_test_kill_process_not_found() {
    let system = sysinfo::System::new();
    let result = kill_process(&system, 999_999, "test");
    assert!(result.is_err());
    assert!(result.unwrap_err().contains("not found"));
}

#[test]
fn test_kill_process_error_format() {
    let system = sysinfo::System::new();
    let result = kill_process(&system, 999_999, "test");
    let err = result.unwrap_err();
    assert!(err.contains("999999"), "error should mention PID");
    assert!(err.contains("not found"), "error should mention 'not found'");
    assert_eq!(err, "Process 999999 not found");
}

#[test]
fn test_kill_process_name_mismatch() {
    let system = sysinfo::System::new();
    let result = kill_process(&system, 999_999, "");
    assert!(result.is_err());
}

#[test]
fn kill_checks_name_before_killing() {
    assert_eq!(kill_precheck(12, "a.exe", Some("a.exe")), Ok(()));
    assert_eq!(
        kill_precheck(12, "a.exe", Some("b.exe")),
        Err("PID 12 has changed: expected 'a.exe', actual 'b.exe'".to_string())
    );
    assert_eq!(kill_precheck(7, "a.exe", None), Err("Process 7 not found".to_string()));
    assert_eq!(kill_result(12, "a.exe", true), Ok(()));
    assert_eq!(kill_result(12, "a.exe", false), Err("Failed to kill process 12 (a.exe)".to_string()));
}

#[test]
fn trim_counts_add_up() {
    let mut c = TrimCounts::new();
    c.record(true, false);
    c.record(false, true);
    c.record(false, false);
    c.record(false, true);
    assert_eq!(c.skipped, 1);
    assert_eq!(c.attempted, 3);
    assert_eq!(c.success, 2);
    assert_eq!(c.failed, 1);
}
