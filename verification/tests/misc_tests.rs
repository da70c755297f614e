use pony_core::cleaner::{get_clean_targets, recycle_bin_error, Category, DeleteResult, SafetyLevel, ScanTarget};
use pony_core::cleanlog::{
    backup_file_name, clean_log_entry, format_utc_timestamp, needs_rotation, newest_lines,
    rotation_steps, sanitize_error, sanitize_error_given, timestamp_now,
};
use pony_core::delete::{DeleteOutcome, DeleteSession, Verdict};
use pony_core::icon::{bgra_to_rgba, png_data_url};
use pony_core::paths::EnvVars;
use pony_core::settings::{autostart_command, needs_elevation, user_profile_root, user_scan_params, AppConfig, PonyError};
use pony_core::window::{
    accent_policy, capsule_content_logical, capsule_region, clamp_to_client, capsule_logical_size, edge_check, edge_prop,
    edge_transition, form_prop, geometry_from_props, gradient_color, hit_test, idle_ms,
    island_height, lparam_screen_point, parse_geometry, point_in_rect, rect_center, CapsuleForm,
    CapsuleGeometry, EdgeTransition, HitAnswer, MonitorLookup, ScreenEdge, HTCLIENT, HTNOWHERE,
    HT_MODE_CAPSULE, HT_MODE_FULL, WM_ERASEBKGND, WM_NCCALCSIZE, WM_NCHITTEST,
};

fn windows_env() -> EnvVars {
    let mut env = EnvVars::new(true);
    env.push("SystemDrive".to_string(), "C:".to_string());
    env.push("WINDIR".to_string(), "C:\\Windows".to_string());
    env.push("TEMP".to_string(), "C:\\Users\\me\\AppData\\Local\\Temp".to_string());
    env.push("USERPROFILE".to_string(), "C:\\Users\\me".to_string());
    env
}

// ---- deletion ----

#[test]
fn test_delete_rejects_protected() {
    let env = windows_env();
    let targets = get_clean_targets("C:");
    let path = "C:\\Windows\\System32\\config\\SAM";
    let mut s = DeleteSession::new(&targets, 1);
    let v = s.check_path(&targets, &env, path, Ok(path.to_string()));
    assert!(matches!(v, Verdict::Rejected(_)));
    let result = s.finish();
    assert_eq!(result.success, 0);
    assert!(result.errors.iter().any(|e| e.contains("Protected") || e.contains("SAM")));
}

#[test]
fn delete_session_counts_every_path() {
    let env = windows_env();
    let targets = vec![ScanTarget::new("t".into(), "%TEMP%", SafetyLevel::Safe, Category::Temp, "".into())];
    let mut s = DeleteSession::new(&targets, 3);
    let ok = "C:\\Users\\me\\AppData\\Local\\Temp\\a.tmp";
    match s.check_path(&targets, &env, ok, Ok(ok.to_string())) {
        Verdict::Delete(p) => assert_eq!(p, ok),
        Verdict::Rejected(_) => panic!("should be accepted"),
    }
    let progress = s.record_delete(ok, DeleteOutcome::Deleted);
    assert!(progress.is_none());
    match s.check_path(&targets, &env, "D:\\x", Ok("D:\\x".to_string())) {
        Verdict::Rejected(p) => {
            assert_eq!(p.done, 2);
            assert_eq!(p.total, 3);
            assert_eq!(p.current, "D:\\x");
        }
        Verdict::Delete(_) => panic!("outside the targets"),
    }
    let busy = "C:\\Users\\me\\AppData\\Local\\Temp\\b.tmp";
    let _ = s.check_path(&targets, &env, busy, Ok(busy.to_string()));
    let last = s.record_delete(busy, DeleteOutcome::Failed { message: "locked".into(), busy: true });
    assert_eq!(last.map(|p| p.done), Some(3));
    assert_eq!(s.done(), 3);
    let r = s.finish();
    assert_eq!(r.success, 1);
    assert_eq!(r.failed, 2);
    assert_eq!(r.errors[0], "Path not in scan scope: D:\\x");
    assert_eq!(r.errors[1], "文件被进程占用，延迟删除失败: locked");
}

#[test]
fn delete_session_services() {
    let env = windows_env();
    let targets = get_clean_targets("C:");
    let mut s = DeleteSession::new(&targets, 1);
    let services = s.services_to_stop();
    assert_eq!(services, vec!["wuauserv".to_string()]);
    s.record_stop("wuauserv".into(), Err("denied".into()));
    let p = "C:\\Windows\\SoftwareDistribution\\DataStore\\x.db";
    match s.check_path(&targets, &env, p, Ok(p.to_string())) {
        Verdict::Rejected(_) => {}
        Verdict::Delete(_) => panic!("service could not be stopped"),
    }
    assert!(s.services_to_restart().is_empty());
    let r = s.finish();
    assert_eq!(r.errors[0], "无法停止服务 wuauserv: denied");
    assert_eq!(r.errors[1], format!("服务无法停止，跳过删除: {p}"));
}

#[test]
fn delete_unresolved_path() {
    let env = windows_env();
    let targets = get_clean_targets("C:");
    let mut s = DeleteSession::new(&targets, 1);
    let _ = s.check_path(&targets, &env, "X:\\gone", Err("missing".into()));
    let r = s.finish();
    assert_eq!(r.errors, vec!["Cannot resolve path X:\\gone: missing".to_string()]);
}

// ---- clean log ----

#[test]
fn utc_timestamps() {
    assert_eq!(format_utc_timestamp(0), "1970-01-01T00:00:00Z");
    assert_eq!(format_utc_timestamp(951_782_400), "2000-02-29T00:00:00Z");
    assert_eq!(format_utc_timestamp(1_767_225_599), "2025-12-31T23:59:59Z");
    assert_eq!(format_utc_timestamp(1_767_225_600), "2026-01-01T00:00:00Z");
    let now = timestamp_now();
    assert_eq!(now.len(), 20);
    assert!(now.ends_with('Z'));
}

#[test]
fn sanitized_errors() {
    assert_eq!(sanitize_error("Protected path: C:\\Windows"), "protected path");
    assert_eq!(sanitize_error("Path not in scan scope: D:\\x"), "path not in scan scope");
    assert_eq!(sanitize_error("Cannot resolve path X: gone"), "cannot resolve path");
    assert_eq!(sanitize_error_given("weird", Some("f.txt".into())), "f.txt");
    assert_eq!(sanitize_error_given("0123456789012345678901234567890123", None), "012345678901234567890123456789");
}

#[test]
fn clean_log_entry_and_newest_lines() {
    let result = DeleteResult { success: 5, failed: 0, errors: vec![] };
    let entry = clean_log_entry("2026-01-01T00:00:00Z".into(), &vec![Some(10240), None], &result);
    assert_eq!(entry.success, 5);
    assert_eq!(entry.total_files, 2);
    assert_eq!(entry.total_bytes, 10240);
    assert_eq!(entry.by_category.len(), 1);
    assert_eq!(entry.by_category[0].0, "other");
    assert_eq!(entry.by_category[0].1.files, 2);
    let lines = newest_lines("a\nb\r\nc\n", 10);
    assert_eq!(lines, vec!["c".to_string(), "b".to_string(), "a".to_string()]);
    assert_eq!(newest_lines("a\nb\nc", 2), vec!["c".to_string(), "b".to_string()]);
    assert!(newest_lines("", 5).is_empty());
}

#[test]
fn log_rotation() {
    assert!(!needs_rotation(1_048_576));
    assert!(needs_rotation(1_048_577));
    assert_eq!(rotation_steps(), vec![(4, 5), (3, 4), (2, 3), (1, 2)]);
    assert_eq!(backup_file_name(3), "clean_log.3.jsonl");
}

// ---- icon ----

#[test]
fn icon_channels_swapped() {
    assert_eq!(bgra_to_rgba(&[1, 2, 3, 4, 5, 6, 7, 8]), vec![3, 2, 1, 4, 7, 6, 5, 8]);
    assert_eq!(bgra_to_rgba(&[1, 2, 3]), Vec::<u8>::new());
}

#[test]
fn icon_png_data_url() {
    assert_eq!(png_data_url(0, 4, &[0u8; 64]), None);
    let url = png_data_url(2, 2, &[255u8; 16]).expect("encodes");
    assert!(url.starts_with("data:image/png;base64,iVBORw0KGgo"));
    assert_eq!(png_data_url(4, 4, &[0u8; 8]), None);
}

// ---- settings ----

#[test]
fn app_config_defaults() {
    let c = AppConfig::default();
    assert_eq!(c.alert_cpu_pct, 80);
    assert_eq!(c.alert_mem_pct, 85);
    assert!(!c.autostart);
}

#[test]
fn user_scan_parameters() {
    assert_eq!(user_scan_params(None, None, (100, 3)), (104_857_600, 3));
    assert_eq!(user_scan_params(Some(1), Some(9), (100, 3)), (52_428_800, 5));
    assert_eq!(user_scan_params(Some(20_000), Some(0), (100, 3)), (10_485_760_000, 1));
    assert_eq!(user_profile_root(&windows_env()), "C:\\Users\\me");
    assert_eq!(user_profile_root(&EnvVars::new(true)), "C:\\");
    assert_eq!(autostart_command("C:\\p.exe"), "\"C:\\p.exe\"");
    assert!(needs_elevation(&Err("x".into()), true));
    assert!(!needs_elevation(&Ok(()), true));
    assert!(!needs_elevation(&Err("x".into()), false));
}

#[test]
fn error_messages() {
    assert_eq!(PonyError::Process("boom".into()).message(), "Process error: boom");
    assert_eq!(PonyError::Cleanup("x".into()).message(), "Cleanup error: x");
    let io = PonyError::from_io(std::io::Error::new(std::io::ErrorKind::Other, "disk"));
    assert_eq!(io.message(), "IO error: disk");
}

// ---- window ----

#[test]
fn geometry_parsing_and_props() {
    assert_eq!(
        parse_geometry("bar", "left"),
        Ok(CapsuleGeometry { form: CapsuleForm::Bar, edge: ScreenEdge::Left })
    );
    assert_eq!(parse_geometry("cube", "left"), Err("unknown capsule form: cube".to_string()));
    assert_eq!(parse_geometry("pill", "middle"), Err("unknown screen edge: middle".to_string()));
    for form in [CapsuleForm::Pill, CapsuleForm::Bar] {
        for edge in [ScreenEdge::Top, ScreenEdge::Bottom, ScreenEdge::Left, ScreenEdge::Right] {
            let g = CapsuleGeometry { form, edge };
            assert_eq!(geometry_from_props(form_prop(form), edge_prop(edge)), g);
        }
    }
    assert_eq!(geometry_from_props(99, 99), CapsuleGeometry::default());
}

#[test]
fn capsule_sizes() {
    assert_eq!(capsule_logical_size(ScreenEdge::Top), (166, 44));
    assert_eq!(capsule_logical_size(ScreenEdge::Left), (44, 166));
    let pill = CapsuleGeometry { form: CapsuleForm::Pill, edge: ScreenEdge::Top };
    assert_eq!(capsule_content_logical(pill), (3, 2, 160, 40));
    let bar = CapsuleGeometry { form: CapsuleForm::Bar, edge: ScreenEdge::Bottom };
    assert_eq!(capsule_content_logical(bar), (0, 34, 166, 10));
    let right = CapsuleGeometry { form: CapsuleForm::Bar, edge: ScreenEdge::Right };
    assert_eq!(capsule_content_logical(right), (34, 0, 10, 166));
}

#[test]
fn hit_testing() {
    let content = Some((3, 2, 160, 40));
    assert!(matches!(hit_test(WM_NCHITTEST, HT_MODE_CAPSULE, content, Some((10, 10))), HitAnswer::Return(v) if v == HTCLIENT));
    assert!(matches!(hit_test(WM_NCHITTEST, HT_MODE_CAPSULE, content, Some((0, 0))), HitAnswer::Return(v) if v == HTNOWHERE));
    assert!(matches!(hit_test(WM_NCHITTEST, HT_MODE_FULL, content, Some((0, 0))), HitAnswer::Return(v) if v == HTCLIENT));
    assert!(matches!(hit_test(WM_NCHITTEST, HT_MODE_CAPSULE, None, Some((0, 0))), HitAnswer::Default));
    assert!(matches!(hit_test(WM_ERASEBKGND, HT_MODE_CAPSULE, None, None), HitAnswer::Return(1)));
    assert!(matches!(hit_test(WM_NCCALCSIZE, HT_MODE_CAPSULE, None, None), HitAnswer::Return(0)));
    assert!(matches!(hit_test(0x0200, HT_MODE_CAPSULE, None, None), HitAnswer::Default));
    assert!(point_in_rect(3, 2, (3, 2, 160, 40)));
    assert!(!point_in_rect(163, 2, (3, 2, 160, 40)));
}

#[test]
fn lparam_points_are_signed() {
    assert_eq!(lparam_screen_point(0x0002_0001), (1, 2));
    assert_eq!(lparam_screen_point(0xFFFF_FFFF), (-1, -1));
}

#[test]
fn accent_colours() {
    assert_eq!(gradient_color((0x11, 0x22, 0x33, 0x44)), 0x4411_2233);
    let p = accent_policy(4, (1, 2, 3, 4));
    assert_eq!(p.accent_state, 4);
    assert_eq!(p.accent_flags, 0);
    assert_eq!(p.gradient_color, 0x0401_0203);
    assert_eq!(p.animation_id, 0);
}

#[test]
fn island_and_idle() {
    assert_eq!(island_height(true), 480);
    assert_eq!(island_height(false), 100);
    assert_eq!(idle_ms(1000, 400), 600);
    assert_eq!(idle_ms(5, 0xFFFF_FFFF), 6);
    assert_eq!(rect_center(0, 0, 100, 50), (50, 25));
    assert_eq!(rect_center(-3, 0, 0, 0), (-1, 0));
}

#[test]
fn edge_detection() {
    let (at, payload) = edge_check(Some((500, 5)), (1920, 1080), MonitorLookup::Rect(0, 0, 1920, 1080), None);
    assert!(at);
    assert_eq!(payload.cursor_x, 500);
    assert_eq!(payload.mon_right, 1920);
    let (at, _) = edge_check(Some((500, 500)), (1920, 1080), MonitorLookup::Rect(0, 0, 1920, 1080), None);
    assert!(!at);
    let (at, _) = edge_check(Some((500, 5)), (1920, 1080), MonitorLookup::Rect(0, 0, 1920, 1080), Some(false));
    assert!(!at);
    let (at, _) = edge_check(Some((5, 500)), (1920, 1080), MonitorLookup::NoMonitor, None);
    assert!(at);
    let (at, _) = edge_check(Some((500, 5)), (1920, 1080), MonitorLookup::InfoFailed, None);
    assert!(!at);
    let (at, _) = edge_check(None, (1920, 1080), MonitorLookup::NoMonitor, None);
    assert!(!at);
    assert!(matches!(edge_transition(false, true), EdgeTransition::Enter));
    assert!(matches!(edge_transition(true, false), EdgeTransition::Leave));
    assert!(matches!(edge_transition(true, true), EdgeTransition::Stay));
}

#[test]
fn recycle_bin_errors() {
    assert_eq!(
        recycle_bin_error(0x8000_4005, "Unspecified error"),
        "清空回收站失败 (0x80004005): Unspecified error。回收站中部分文件无法删除，可能是系统文件被保护或目录结构异常"
    );
    assert!(recycle_bin_error(0x8007_0005, "denied").starts_with("清空回收站失败 (0x80070005): denied。回收站中有文件正被其他程序占用"));
    assert_eq!(recycle_bin_error(0x2A, "x"), "清空回收站失败 (0x0000002A): x。清空回收站失败，请稍后重试或检查回收站目录");
}

#[test]
fn path_file_names_in_errors() {
    assert_eq!(sanitize_error("Access denied: /tmp/x/file.bin"), "file.bin");
}

#[test]
fn capsule_regions() {
    assert_eq!(clamp_to_client((-3, 5, 400, 20), 332, 88), (0, 5, 332, 20));
    assert_eq!(clamp_to_client((400, 90, 10, 10), 332, 88), (332, 88, 0, 0));
    assert_eq!(capsule_region((6, 4, 320, 80)), Some((6, 4, 326, 84, 80)));
    assert_eq!(capsule_region((0, 0, 0, 80)), None);
}

#[test]
fn appended_log_line_is_read_first() {
    let before = "{\"a\":1}\n{\"a\":2}\n";
    let after = format!("{before}{{\"a\":3}}\n");
    assert_eq!(newest_lines(&after, 1), vec!["{\"a\":3}".to_string()]);
    assert_eq!(newest_lines(&after, 5).len(), 3);
    assert_eq!(newest_lines("", 5), Vec::<String>::new());
    assert_eq!(newest_lines("{\"a\":3}\n", 2), vec!["{\"a\":3}".to_string()]);
}
