use pony_core::cleaner::DeleteResult;
use pony_core::delete::DeleteOutcome;
use pony_core::disk::{
    counts_toward_usage, disk_closing_events, is_system_file, large_delete_log_entry, path_lt, risk_level, skip_child,
    skip_usage_child, top_dirs, DirUsage, LargeDeleteSession, LargeFile, LargeFileKind,
    DiskEvent, LargeFileLevel, ProgressGate, TopLargest, UsageMap,
};
use pony_core::paths::EnvVars;

fn env() -> EnvVars {
    let mut env = EnvVars::new(true);
    env.push("SystemDrive".to_string(), "C:".to_string());
    env.push("WINDIR".to_string(), "C:\\Windows".to_string());
    env
}

fn file(path: &str, size: u64) -> LargeFile {
    LargeFile {
        path: path.to_string(),
        size_bytes: size,
        modified_secs: 0,
        level: LargeFileLevel::Safe,
        kind: LargeFileKind::Other,
    }
}

#[test]
fn test_infer_kind() {
    assert_eq!(LargeFileKind::from_name("movie.mp4"), LargeFileKind::Video);
    assert_eq!(LargeFileKind::from_name("backup.zip"), LargeFileKind::Archive);
    assert_eq!(LargeFileKind::from_name("setup.exe"), LargeFileKind::Installer);
    assert_eq!(LargeFileKind::from_name("photo.JPG"), LargeFileKind::Image);
    assert_eq!(LargeFileKind::from_name("report.pdf"), LargeFileKind::Document);
    assert_eq!(LargeFileKind::from_name("data.bin"), LargeFileKind::Other);
    assert_eq!(LargeFileKind::from_name("noext"), LargeFileKind::Other);
}

#[test]
fn test_risk_level() {
    assert_eq!(
        risk_level("C:\\Users\\u\\Downloads\\setup.exe", LargeFileKind::Installer),
        LargeFileLevel::Confirm
    );
    assert_eq!(
        risk_level("C:\\Users\\u\\AppData\\Local\\WeChat\\big.db", LargeFileKind::Other),
        LargeFileLevel::Confirm
    );
    assert_eq!(risk_level("C:\\Users\\u\\Documents\\movie.mp4", LargeFileKind::Video), LargeFileLevel::Safe);
    assert_eq!(risk_level("C:\\Users\\u\\Downloads\\backup.zip", LargeFileKind::Archive), LargeFileLevel::Safe);
}

#[test]
fn test_top_largest_zero_and_one_cap() {
    let mut top = TopLargest::new(0);
    top.push(file("1000000.bin", 1_000_000));
    assert!(top.into_sorted_desc().is_empty());
    let mut top = TopLargest::new(1);
    for size in [100u64, 300, 200] {
        top.push(file(&format!("{size}.bin"), size));
    }
    let files = top.into_sorted_desc();
    assert_eq!(files.len(), 1);
    assert_eq!(files[0].size_bytes, 300);
}

#[test]
fn top_largest_keeps_the_largest_sorted() {
    let mut top = TopLargest::new(3);
    for (p, s) in [("a", 5u64), ("b", 50), ("c", 7), ("d", 500), ("e", 1), ("f", 50)] {
        top.push(file(p, s));
    }
    assert_eq!(top.len(), 3);
    let files = top.into_sorted_desc();
    let sizes: Vec<u64> = files.iter().map(|f| f.size_bytes).collect();
    assert_eq!(sizes, vec![500, 50, 50]);
    // Equal sizes come in path order.
    assert_eq!(files[1].path, "b");
    assert_eq!(files[2].path, "f");
}

#[test]
fn top_largest_cap_keeps_largest() {
    // A cap below the number of candidates keeps exactly the largest ones.
    let mut top = TopLargest::new(2);
    for (i, s) in [10u64, 40, 30, 20].iter().enumerate() {
        top.push(file(&format!("f{i}.bin"), *s));
    }
    let files = top.into_sorted_desc();
    assert_eq!(files.iter().map(|f| f.size_bytes).collect::<Vec<_>>(), vec![40, 30]);
}

#[test]
fn top_largest_cap_above_count_keeps_all() {
    let mut top = TopLargest::new(100);
    for (i, s) in [10u64, 40, 30].iter().enumerate() {
        top.push(file(&format!("f{i}.bin"), *s));
    }
    let files = top.into_sorted_desc();
    assert_eq!(files.iter().map(|f| f.size_bytes).collect::<Vec<_>>(), vec![40, 30, 10]);
}

#[test]
fn top_largest_exact_cap() {
    let mut top = TopLargest::new(3);
    for (i, s) in [10u64, 40, 30].iter().enumerate() {
        top.push(file(&format!("f{i}.bin"), *s));
    }
    assert_eq!(top.len(), 3);
    assert_eq!(top.into_sorted_desc().len(), 3);
}

#[test]
fn path_order_is_lexicographic() {
    assert!(path_lt("a", "b"));
    assert!(path_lt("a", "ab"));
    assert!(!path_lt("b", "a"));
    assert!(!path_lt("a", "a"));
}

#[test]
fn walk_skips_local_temp_and_system_files() {
    assert!(skip_child("C:\\Users\\u\\AppData\\Local", "Temp"));
    assert!(skip_child("C:\\Users\\u\\appdata\\local", "TEMP"));
    assert!(!skip_child("C:\\Users\\u\\Documents", "Temp"));
    assert!(is_system_file("NTUSER.DAT"));
    assert!(is_system_file("ntuser.dat.LOG1"));
    assert!(!is_system_file("big.bin"));
}

#[test]
fn usage_walk_skips_known_directories() {
    assert!(skip_usage_child("$RECYCLE.BIN"));
    assert!(skip_usage_child("node_modules"));
    assert!(!skip_usage_child("Documents"));
    assert!(counts_toward_usage(1, 3));
    assert!(counts_toward_usage(3, 3));
    assert!(!counts_toward_usage(4, 3));
    assert!(counts_toward_usage(0, 1));
}

#[test]
fn usage_map_aggregates() {
    let mut usage = UsageMap::new();
    assert!(usage.add("C:\\root".to_string(), 100));
    assert!(usage.add("C:\\root\\sub".to_string(), 200));
    assert!(usage.add("C:\\root".to_string(), 50));
    let mut entries = usage.into_entries();
    entries.sort_by(|a, b| a.path.cmp(&b.path));
    assert_eq!(entries.len(), 2);
    assert_eq!(entries[0].path, "C:\\root");
    assert_eq!(entries[0].size_bytes, 150);
    assert_eq!(entries[0].file_count, 2);
    assert_eq!(entries[1].size_bytes, 200);
    assert_eq!(entries[1].file_count, 1);
}

#[test]
fn usage_overflow_is_refused() {
    let mut usage = UsageMap::new();
    assert!(usage.add("d".to_string(), u64::MAX));
    assert!(!usage.add("d".to_string(), 1));
    let entries = usage.into_entries();
    assert_eq!(entries[0].size_bytes, u64::MAX);
    assert_eq!(entries[0].file_count, 1);
}

#[test]
fn top_dirs_keeps_largest_first() {
    let dirs = vec![
        DirUsage { path: "a".into(), size_bytes: 5, file_count: 1 },
        DirUsage { path: "b".into(), size_bytes: 50, file_count: 1 },
        DirUsage { path: "c".into(), size_bytes: 7, file_count: 1 },
    ];
    let top = top_dirs(dirs, 2);
    assert_eq!(top.iter().map(|d| d.size_bytes).collect::<Vec<_>>(), vec![50, 7]);
}

#[test]
fn progress_gate_throttles() {
    let mut gate = ProgressGate::new();
    assert!(!gate.should_send(0));
    assert!(!gate.should_send(199));
    assert!(gate.should_send(200));
    assert!(!gate.should_send(200));
    assert!(!gate.should_send(399));
    assert!(gate.should_send(400));
}

#[test]
fn large_delete_outside_root_rejected() {
    let env = env();
    let mut s = LargeDeleteSession::new("C:\\Users\\u", 1);
    let r = s.check(&env, "D:\\Other\\x.bin", Ok("D:\\Other\\x.bin".to_string()));
    assert!(r.is_none());
    let res = s.finish();
    assert_eq!(res.failed, 1);
    assert_eq!(res.success, 0);
    assert!(res.errors[0].starts_with("Path outside scan root: "));
}

#[test]
fn large_delete_within_root_ok() {
    let env = env();
    let mut s = LargeDeleteSession::new("C:\\Users\\u", 2);
    let r = s.check(&env, "C:\\Users\\u\\big.bin", Ok("C:\\Users\\u\\big.bin".to_string()));
    assert_eq!(r.as_deref(), Some("C:\\Users\\u\\big.bin"));
    s.record("C:\\Users\\u\\big.bin", DeleteOutcome::Deleted);
    let sys = s.check_given(
        &env,
        "C:\\Users\\u\\NTUSER.DAT",
        Ok("C:\\Users\\u\\NTUSER.DAT".to_string()),
        false,
        Some("NTUSER.DAT".to_string()),
    );
    assert!(sys.is_none());
    let res = s.finish();
    assert_eq!(res.success, 1);
    assert_eq!(res.failed, 1);
    assert!(res.errors[0].starts_with("System file not deletable: "));
}

#[test]
fn large_delete_unresolved_path_fails() {
    let env = env();
    let mut s = LargeDeleteSession::new("C:\\Users\\u", 1);
    let r = s.check(&env, "C:\\Users\\u\\gone.bin", Err("not found".to_string()));
    assert!(r.is_none());
    let res = s.finish();
    assert_eq!(res.errors, vec!["Cannot resolve path C:\\Users\\u\\gone.bin: not found".to_string()]);
}

#[test]
fn large_delete_log_sums_known_sizes() {
    let result = DeleteResult { success: 2, failed: 1, errors: vec!["Protected path: x".into()] };
    let entry = large_delete_log_entry("2026-01-01T00:00:00Z".into(), 3, &vec![Some(10), None, Some(5)], &result);
    assert_eq!(entry.total_files, 3);
    assert_eq!(entry.total_bytes, 15);
    assert_eq!(entry.success, 2);
    assert_eq!(entry.errors, vec!["Protected path: x".to_string()]);
    assert!(entry.by_category.is_empty());
}

#[test]
fn top_largest_keeps_greatest_in_any_order() {
    let sizes = [(5u64, "e"), (100, "a"), (300, "c"), (200, "b"), (100, "z"), (50, "d")];
    let orders: [[usize; 6]; 3] = [[0, 1, 2, 3, 4, 5], [5, 4, 3, 2, 1, 0], [2, 0, 4, 1, 5, 3]];
    for order in orders.iter() {
        let mut top = TopLargest::new(3);
        for &i in order.iter() {
            top.push(file(sizes[i].1, sizes[i].0));
        }
        let out: Vec<(u64, String)> =
            top.into_sorted_desc().into_iter().map(|f| (f.size_bytes, f.path)).collect();
        assert_eq!(
            out,
            vec![(300, "c".to_string()), (200, "b".to_string()), (100, "z".to_string())]
        );
    }
}

#[test]
fn large_delete_sibling_of_root_is_outside() {
    let env = env();
    let mut s = LargeDeleteSession::new("C:\\data\\a", 2);
    let r = s.check(&env, "C:\\data\\ab\\x.bin", Ok("C:\\data\\ab\\x.bin".to_string()));
    assert!(r.is_none());
    let r = s.check(&env, "C:\\data\\a\\x.bin", Ok("C:\\data\\a\\x.bin".to_string()));
    assert_eq!(r.as_deref(), Some("C:\\data\\a\\x.bin"));
    let res = s.finish();
    assert_eq!(res.failed, 1);
    assert_eq!(res.errors, vec!["Path outside scan root: C:\\data\\ab\\x.bin".to_string()]);
}

#[test]
fn disk_scan_closing_sequence() {
    let ev = disk_closing_events(7, vec![], None);
    assert_eq!(ev.len(), 2);
    assert!(matches!(&ev[0], DiskEvent::Progress { scanned: 7, current } if current.is_empty()));
    assert!(matches!(ev[1], DiskEvent::Done));
    let files = vec![file("C:\\a.bin", 10)];
    let dirs = vec![DirUsage { path: "C:\\d".into(), size_bytes: 10, file_count: 1 }];
    let ev = disk_closing_events(9, files, Some(dirs));
    assert_eq!(ev.len(), 4);
    assert!(matches!(&ev[1], DiskEvent::LargeFiles { files } if files.len() == 1 && files[0].path == "C:\\a.bin"));
    assert!(matches!(&ev[2], DiskEvent::DirUsage { dirs } if dirs[0].path == "C:\\d"));
    assert!(matches!(ev[3], DiskEvent::Done));
}

#[test]
fn large_delete_refuses_system_hive_by_last_segment() {
    let env = env();
    let mut s = LargeDeleteSession::new("/home/u", 1);
    let r = s.check(&env, "/home/u/NTUSER.DAT", Ok("/home/u/NTUSER.DAT".to_string()));
    assert!(r.is_none());
    let res = s.finish();
    assert_eq!(res.errors, vec!["System file not deletable: /home/u/NTUSER.DAT".to_string()]);
}
