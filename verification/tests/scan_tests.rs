use pony_core::cleaner::{get_clean_targets, BrowserProfileConfig, Category, SafetyLevel, ScanEvent, ScanTarget, ScanWarning};
use pony_core::paths::EnvVars;
use pony_core::scan::{
    browser_cache_dirs, closing_events, deep_skip, glob_match, mtime_cutoff, profile_matches, route, route_given,
    is_reparse_attribute, scan_start_error, select_uwp_packages, select_uwp_packages_given, split_groups, target_dir, uwp_subdir, Accepted, Consider, EntryFacts, Resolved,
    Route, WorkerScan,
};

fn env_with_temp(temp: &str) -> EnvVars {
    let mut env = EnvVars::new(true);
    env.push("SystemDrive".to_string(), "C:".to_string());
    env.push("WINDIR".to_string(), "C:\\Windows".to_string());
    env.push("TEMP".to_string(), temp.to_string());
    env
}

fn target(id: &str, path: &str, level: SafetyLevel) -> ScanTarget {
    ScanTarget::new(id.into(), path, level, Category::Temp, "".into())
}

fn entry(name: &str, size: u64) -> EntryFacts {
    EntryFacts { is_file: true, size: Some(size), mtime_secs: Some(0), file_name: name.to_string() }
}

/// The directories a set of targets resolves to, given that every directory resolves
/// to itself and has a parent.
fn resolve(targets: &[ScanTarget], env: &EnvVars) -> Vec<(String, usize)> {
    let mut resolved = Resolved::new();
    for (i, t) in targets.iter().enumerate() {
        if let Some(dir) = target_dir(t, env) {
            if matches!(route_given(t, &dir, &dir, env, false), Route::Plain) {
                resolved.offer(dir, i);
            }
        }
    }
    resolved.into_entries()
}

#[test]
fn cleaner_test_resolve_targets_excludes_forbidden() {
    let env = env_with_temp("C:\\TestTemp");
    let targets = vec![
        target("temp", "%TEMP%", SafetyLevel::Safe),
        target("sys32", "C:\\Windows\\System32", SafetyLevel::Forbidden),
    ];
    let resolved = resolve(&targets, &env);
    assert!(!resolved.is_empty(), "should include TEMP");
    assert!(!resolved.iter().any(|(p, _)| p.to_lowercase().contains("system32")));
}

#[test]
fn integration_cleaner_test_resolve_targets_excludes_forbidden() {
    let env = env_with_temp("C:\\Users\\me\\AppData\\Local\\Temp");
    let targets = vec![
        target("t1", "%TEMP%", SafetyLevel::Safe),
        target("t2", "%WINDIR%\\System32", SafetyLevel::Forbidden),
    ];
    assert!(target_dir(&targets[1], &env).is_none());
    let resolved = resolve(&targets, &env);
    assert!(!resolved.is_empty());
    assert!(!resolved.iter().any(|(p, _)| p.contains("System32")));
}

#[test]
fn test_resolve_targets_skips_protected() {
    let env = env_with_temp("C:\\TestTemp");
    let targets = vec![target("p", "C:\\Windows\\System32\\config", SafetyLevel::Safe)];
    assert!(resolve(&targets, &env).is_empty(), "protected path should be skipped");
}

#[test]
fn test_resolve_targets_dedup_same_path() {
    let env = env_with_temp("C:\\TestTemp");
    let targets = vec![target("a", "%TEMP%", SafetyLevel::Safe), target("b", "%TEMP%", SafetyLevel::Safe)];
    let resolved = resolve(&targets, &env);
    assert_eq!(resolved.len(), 1, "no duplicate paths");
    assert_eq!(resolved[0], ("C:\\TestTemp".to_string(), 0));
}

#[test]
fn test_env_injection_temp_is_protected() {
    let env = env_with_temp("C:\\Windows\\System32\\config");
    let filtered: Vec<ScanTarget> = get_clean_targets("C:").into_iter().filter(|t| t.id == "user_temp").collect();
    assert!(resolve(&filtered, &env).is_empty(), "TEMP pointing to protected path must be rejected");
}

#[test]
fn route_rejects_redirected_directory() {
    let env = env_with_temp("C:\\TestTemp");
    let t = target("temp", "%TEMP%", SafetyLevel::Safe);
    assert!(matches!(route(&t, "C:\\TestTemp", "C:\\TestTemp", &env), Route::Plain));
    assert!(matches!(route(&t, "C:\\TestTemp", "D:\\Elsewhere", &env), Route::Skip));
    let uwp = target("uwp_temp", "%TEMP%", SafetyLevel::Safe);
    assert!(matches!(route(&uwp, "C:\\TestTemp", "C:\\TestTemp", &env), Route::Uwp));
    let browser = target("b", "%TEMP%", SafetyLevel::Safe)
        .with_browser(BrowserProfileConfig { profile_patterns: vec![], cache_subdirs: vec![] });
    assert!(matches!(route(&browser, "C:\\TestTemp", "C:\\TestTemp", &env), Route::Browser));
}

#[test]
fn globs() {
    assert!(glob_match("big.log", "*.log"));
    assert!(!glob_match("big.txt", "*.log"));
    assert!(glob_match("data_cache_1", "*cache*"));
    assert!(glob_match("f_000001", "f_*"));
    assert!(glob_match("exact", "exact"));
    assert!(!glob_match("exact2", "exact"));
}

#[test]
fn test_scan_target_block_filters() {
    let t = target("test", "%TEMP%", SafetyLevel::Safe).with_min_size(4096).with_glob(vec!["*.log".into()]);
    let mut w = WorkerScan::new();
    w.begin_target(&t, 1_700_000_000);
    let mut count: u64 = 0;
    for (name, size) in [("big.log", 5000u64), ("small.log", 100), ("big.txt", 5000)] {
        match w.consider(&t, &entry(name, size)) {
            Consider::Candidate => {
                count += 1;
                match w.accept(&t, count, format!("D:\\dir\\{name}"), size, "D:\\dir") {
                    Accepted::Added { flush, progress } => {
                        assert!(flush.is_none());
                        assert!(progress.is_none());
                    }
                    Accepted::GlobalLimit => panic!("limit"),
                }
            }
            Consider::TooSmall | Consider::Filtered | Consider::Ignore => {}
            Consider::TargetFull(_) => panic!("full"),
        }
    }
    assert_eq!(count, 1, "global count = matched files");
    assert_eq!(w.total_bytes(), 5000);
    assert_eq!(w.skipped_small(), 1, "small.log skipped by min_size");
    let (last, bytes, skipped) = w.finish();
    assert_eq!(bytes, 5000);
    assert_eq!(skipped, 1);
    match last {
        Some(ScanEvent::ItemsFound { items, batch_complete }) => {
            assert!(batch_complete);
            assert_eq!(items.len(), 1, "only big.log should match");
            assert_eq!(items[0].path, "D:\\dir\\big.log");
            assert_eq!(items[0].category, "temp");
        }
        _ => panic!("expected the last batch"),
    }
}

#[test]
fn worker_reports_target_full() {
    let mut t = target("t", "%TEMP%", SafetyLevel::Safe);
    t.max_items_per_target = 1;
    let mut w = WorkerScan::new();
    w.begin_target(&t, 0);
    assert!(matches!(w.consider(&t, &entry("a.tmp", 2048)), Consider::Candidate));
    let _ = w.accept(&t, 1, "a.tmp".into(), 2048, "d");
    match w.consider(&t, &entry("b.tmp", 2048)) {
        Consider::TargetFull(ScanEvent::Warning(ScanWarning::MaxItemsReached { target_id, items })) => {
            assert_eq!(target_id, "t");
            assert_eq!(items, 1);
        }
        _ => panic!("expected a full target"),
    }
}

#[test]
fn worker_flushes_full_batches_and_reports_progress() {
    let t = target("t", "%TEMP%", SafetyLevel::Safe);
    let mut w = WorkerScan::new();
    w.begin_target(&t, 0);
    let mut flushed = 0;
    let mut progress = 0;
    for n in 1..=500u64 {
        match w.accept(&t, n, format!("f{n}"), 1, "dir") {
            Accepted::Added { flush, progress: p } => {
                if let Some(ScanEvent::ItemsFound { items, batch_complete }) = flush {
                    assert!(!batch_complete);
                    flushed += items.len();
                }
                if let Some(ScanEvent::Progress { scanned, .. }) = p {
                    assert_eq!(scanned % 100, 0);
                    progress += 1;
                }
            }
            Accepted::GlobalLimit => panic!("limit"),
        }
    }
    assert_eq!(flushed, 500);
    assert_eq!(progress, 5);
    assert_eq!(w.batch_len(), 0);
    assert!(matches!(w.accept(&t, 300_001, "x".into(), 1, "dir"), Accepted::GlobalLimit));
}

#[test]
fn log_targets_get_a_cutoff() {
    let logs = ScanTarget::new("l".into(), "x", SafetyLevel::Safe, Category::Logs, "".into());
    assert_eq!(mtime_cutoff(&logs, 10_000_000), Some(10_000_000 - 90 * 86400));
    let temp = target("t", "x", SafetyLevel::Safe);
    assert_eq!(mtime_cutoff(&temp, 10_000_000), None);
    let dl = target("downloads_old", "x", SafetyLevel::Safe);
    assert!(mtime_cutoff(&dl, 10_000_000).is_some());
}

#[test]
fn split_groups_round_robin() {
    let items: Vec<(String, usize)> = (0..10).map(|i| (format!("d{i}"), i)).collect();
    let groups = split_groups(&items);
    assert_eq!(groups.len(), 4);
    let sizes: Vec<usize> = groups.iter().map(|g| g.len()).collect();
    assert_eq!(sizes, vec![3, 3, 2, 2]);
    assert_eq!(groups[1][2].0, "d9");
    let total: usize = sizes.iter().sum();
    assert_eq!(total, 10);
    assert_eq!(split_groups(&items[..2].to_vec()).len(), 2);
}

#[test]
fn closing_events_order() {
    let ev = closing_events(true, false, true, 5, 10, 1);
    assert_eq!(ev.len(), 3);
    assert!(matches!(ev[0], ScanEvent::Warning(ScanWarning::PermissionDenied { .. })));
    assert!(matches!(ev[1], ScanEvent::Warning(ScanWarning::MaxItemsReached { items: 300_000, .. })));
    assert!(matches!(ev[2], ScanEvent::Done { total_items: 5, total_bytes: 10, skipped_small: 1 }));
    let ev = closing_events(false, true, true, 5, 10, 1);
    assert_eq!(ev.len(), 1);
    assert!(matches!(ev[0], ScanEvent::Cancelled));
}

#[test]
fn uwp_and_browser_helpers() {
    assert_eq!(uwp_subdir("uwp_temp"), Some("AC\\Temp"));
    assert_eq!(uwp_subdir("other"), None);
    let env = env_with_temp("C:\\T");
    let dirs: Vec<String> = (0..60).map(|i| format!("D:\\Packages\\p{i}")).collect();
    let picked = select_uwp_packages(&dirs, &env);
    assert_eq!(picked.len(), 50);
    assert_eq!(picked[0], "D:\\Packages\\p0");
    assert!(profile_matches("Profile 1", &vec!["Profile".to_string()]));
    assert!(profile_matches("Default", &vec!["Default".to_string()]));
    assert!(!profile_matches("System Profile2", &vec!["Default".to_string()]));
    let joined = browser_cache_dirs(&vec!["A".into(), "B".into()], &vec!["Cache".into(), "Code Cache".into()]);
    assert_eq!(joined.len(), 4);
    assert_eq!(joined[0], "A\\Cache");
    assert_eq!(joined[3], "B\\Code Cache");
}

#[test]
fn deep_directories_skipped() {
    assert!(deep_skip(Some(6), "node_modules"));
    assert!(deep_skip(Some(9), ".git"));
    assert!(!deep_skip(Some(5), "node_modules"));
    assert!(!deep_skip(None, ".svn"));
    assert!(!deep_skip(Some(7), "src"));
}

#[test]
fn reparse_attribute_bit() {
    assert!(is_reparse_attribute(0x400));
    assert!(is_reparse_attribute(0x410));
    assert!(!is_reparse_attribute(0x10));
}

#[test]
fn test_resolve_targets_basic() {
    let mut env = env_with_temp("C:\\Users\\me\\AppData\\Local\\Temp");
    env.push("SystemRoot".to_string(), "C:\\Windows".to_string());
    let targets = vec![
        ScanTarget::new("t1".into(), "%TEMP%", SafetyLevel::Safe, Category::Temp, "".into()),
        ScanTarget::new("t2".into(), "%WINDIR%\\Temp", SafetyLevel::Confirm, Category::Temp, "".into()),
    ];
    let resolved = resolve(&targets, &env);
    assert!(!resolved.is_empty(), "should resolve at least TEMP");
    assert!(resolved.iter().any(|(p, _)| p.to_lowercase().contains("temp")));
    assert_eq!(resolved.len(), 2);
}

#[test]
fn uwp_selection_skips_protected_and_rootless() {
    let env = env_with_temp("C:\\T");
    let dirs: Vec<String> = vec![
        "D:\\Packages\\a".into(),
        "C:\\Windows\\System32\\config\\x".into(),
        "D:\\".into(),
        "D:\\Packages\\b".into(),
    ];
    let picked = select_uwp_packages_given(&dirs, &env, &vec![false, false, true, false]);
    assert_eq!(picked, vec!["D:\\Packages\\a".to_string(), "D:\\Packages\\b".to_string()]);
    let picked = select_uwp_packages(&dirs[..2].to_vec(), &env);
    assert_eq!(picked, vec!["D:\\Packages\\a".to_string()]);
}

#[test]
fn scan_start_reasons() {
    assert_eq!(scan_start_error(true, 3).as_deref(), Some("Scan already in progress"));
    assert_eq!(scan_start_error(false, 0).as_deref(), Some("No scan targets available"));
    assert_eq!(scan_start_error(false, 2), None);
}
