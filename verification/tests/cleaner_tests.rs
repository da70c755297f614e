use pony_core::cleaner::{
    config_dir, get_clean_targets, get_filtered_targets, migrate_config, migrate_v1_to_v2,
    placeholder, Category, CleanCommand, CleanItem, CustomTarget, DeleteResult, DiskScanConfig,
    PonyConfig, SafetyLevel, ScanEvent, ScanTarget, ScanWarning,
};
use pony_core::paths::EnvVars;

fn windows_env() -> EnvVars {
    let mut env = EnvVars::new(true);
    env.push("SystemDrive".to_string(), "C:".to_string());
    env.push("SystemRoot".to_string(), "C:\\Windows".to_string());
    env.push("WINDIR".to_string(), "C:\\Windows".to_string());
    env.push("TEMP".to_string(), "C:\\Users\\me\\AppData\\Local\\Temp".to_string());
    env.push("LOCALAPPDATA".to_string(), "C:\\Users\\me\\AppData\\Local".to_string());
    env.push("APPDATA".to_string(), "C:\\Users\\me\\AppData\\Roaming".to_string());
    env.push("USERPROFILE".to_string(), "C:\\Users\\me".to_string());
    env
}

fn custom(id: &str, path: &str, level: SafetyLevel, category: Category, enabled: bool) -> CustomTarget {
    CustomTarget {
        id: id.to_string(),
        path: path.to_string(),
        level,
        category,
        description: String::new(),
        enabled,
    }
}

#[test]
fn test_safety_level_ordering() {
    assert_ne!(SafetyLevel::Safe, SafetyLevel::Forbidden);
    assert_eq!(SafetyLevel::Safe, SafetyLevel::Safe);
}

#[test]
fn test_get_clean_targets_has_entries() {
    let targets = get_clean_targets("C:");
    assert!(!targets.is_empty(), "should have at least one target");
    assert!(targets.iter().any(|t| t.level != SafetyLevel::Forbidden));
}

#[test]
fn test_delete_result_default() {
    let r = DeleteResult::default();
    assert_eq!(r.success, 0);
    assert_eq!(r.failed, 0);
    assert!(r.errors.is_empty());
}

#[test]
fn test_delete_result_construction() {
    let r = DeleteResult { success: 5, failed: 2, errors: vec!["access denied".into()] };
    assert_eq!(r.success, 5);
    assert_eq!(r.failed, 2);
    assert_eq!(r.errors.len(), 1);
}

#[test]
fn test_clean_item_construction() {
    let item = CleanItem {
        path: "C:\\Temp\\test.tmp".to_string(),
        size_bytes: 1024,
        level: SafetyLevel::Safe,
        category: "temp".into(),
    };
    assert_eq!(item.size_bytes, 1024);
    assert_eq!(item.category, "temp");
}

#[test]
fn test_scan_event_variants() {
    let p = ScanEvent::Progress { scanned: 100, current: "scanning...".into() };
    match p {
        ScanEvent::Progress { scanned, .. } => assert_eq!(scanned, 100),
        _ => panic!("wrong variant"),
    }
    let d = ScanEvent::Done { total_items: 1000, total_bytes: 50_000_000, skipped_small: 42 };
    match d {
        ScanEvent::Done { total_items, skipped_small, .. } => {
            assert_eq!(total_items, 1000);
            assert_eq!(skipped_small, 42);
        }
        _ => panic!("wrong variant"),
    }
}

#[test]
fn test_clean_command_variants() {
    match CleanCommand::EmptyRecycleBin {
        CleanCommand::EmptyRecycleBin => {}
        _ => panic!("wrong variant"),
    }
    match CleanCommand::CancelScan {
        CleanCommand::CancelScan => {}
        _ => panic!("wrong variant"),
    }
}

#[test]
fn test_new_targets_resolve() {
    let targets = get_clean_targets("C:");
    assert_eq!(targets.len(), 54, "should have 54 targets");
    assert!(targets.iter().any(|t| t.id == "sys_logfiles"));
    assert!(targets.iter().any(|t| t.id == "uwp_temp"));
    assert!(targets.iter().any(|t| t.id == "downloads_old"));
    assert!(!targets.iter().any(|t| t.id == "recycle_bin"));
}

#[test]
fn cleaner_test_target_ids_unique() {
    let ids: Vec<String> = get_clean_targets("C:").iter().map(|t| t.id.clone()).collect();
    let mut sorted = ids.clone();
    sorted.sort();
    sorted.dedup();
    assert_eq!(ids.len(), sorted.len(), "target ids must be unique");
}

#[test]
fn integration_cleaner_test_target_ids_unique() {
    let targets = get_clean_targets("C:");
    let ids: Vec<&str> = targets.iter().map(|t| t.id.as_str()).collect();
    let mut sorted = ids.clone();
    sorted.sort();
    sorted.dedup();
    assert_eq!(ids.len(), sorted.len(), "target ids must be unique");
}

#[test]
fn test_category_display() {
    assert_eq!(Category::Temp.to_string(), "temp");
    assert_eq!(Category::OldInstall.to_string(), "old_install");
    assert_eq!(Category::AppCache.to_string(), "app_cache");
    assert_eq!(Category::DevCache.to_string(), "dev_cache");
}

#[test]
fn test_min_size_per_category() {
    assert_eq!(Category::Cache.default_min_size(), 512);
    assert_eq!(Category::Logs.default_min_size(), 4096);
    assert_eq!(Category::Temp.default_min_size(), 1024);
    assert_eq!(Category::AppCache.default_min_size(), 1024);
    assert_eq!(Category::DevCache.default_min_size(), 1024);
}

#[test]
fn test_scan_warning_enum_variants() {
    let w1 = ScanWarning::MaxItemsReached { target_id: "t".into(), items: 100 };
    let w2 = ScanWarning::PermissionDenied { target_id: "t".into(), path: "p".into() };
    match w1 {
        ScanWarning::MaxItemsReached { .. } => {}
        _ => panic!(),
    }
    match w2 {
        ScanWarning::PermissionDenied { .. } => {}
        _ => panic!(),
    }
}

#[test]
fn test_get_filtered_targets_uses_id() {
    let mut config = PonyConfig::default();
    config.disabled_target_ids.push("firefox_cache".into());
    config.disabled_target_ids.push("wu_download".into());
    let filtered = get_filtered_targets(&config, "C:");
    assert!(!filtered.iter().any(|t| t.id == "firefox_cache"));
    assert!(!filtered.iter().any(|t| t.id == "wu_download"));
    assert!(filtered.iter().any(|t| t.id == "user_temp"));
}

#[test]
fn test_custom_targets_merged() {
    let mut config = PonyConfig::default();
    config.custom_targets.push(CustomTarget {
        id: "my_app_cache".into(),
        path: "%LOCALAPPDATA%\\MyApp\\Cache".into(),
        level: SafetyLevel::Safe,
        category: Category::AppCache,
        description: "我的应用缓存".into(),
        enabled: true,
    });
    let filtered = get_filtered_targets(&config, "C:");
    let custom = filtered.iter().find(|t| t.id == "my_app_cache");
    assert!(custom.is_some(), "custom target should be merged");
    assert_eq!(custom.unwrap().category, Category::AppCache);
    assert_eq!(custom.unwrap().level, SafetyLevel::Safe);
}

#[test]
fn test_custom_targets_disabled_or_forbidden_skipped() {
    let mut config = PonyConfig::default();
    config.custom_targets.push(custom("disabled_one", "%TEMP%\\X", SafetyLevel::Safe, Category::Temp, false));
    config.custom_targets.push(custom(
        "forbidden_one",
        "%WINDIR%\\System32",
        SafetyLevel::Forbidden,
        Category::Temp,
        true,
    ));
    let filtered = get_filtered_targets(&config, "C:");
    assert!(!filtered.iter().any(|t| t.id == "disabled_one"));
    assert!(!filtered.iter().any(|t| t.id == "forbidden_one"));
}

#[test]
fn test_custom_targets_id_conflict_skipped() {
    let mut config = PonyConfig::default();
    config.custom_targets.push(custom("user_temp", "%TEMP%\\Custom", SafetyLevel::Safe, Category::Temp, true));
    let filtered = get_filtered_targets(&config, "C:");
    let user_temp = filtered.iter().find(|t| t.id == "user_temp").unwrap();
    assert_eq!(user_temp.path, "%TEMP%", "builtin target wins on id conflict");
}

#[test]
fn test_config_migration_v1_to_v2() {
    let v1 = PonyConfig {
        disabled_targets: vec!["%TEMP%".into(), "%WINDIR%\\Temp".into()],
        custom_exclude_paths: vec!["C:\\MyData".into()],
        ..Default::default()
    };
    let v2 = migrate_v1_to_v2(v1);
    assert_eq!(v2.version, Some(2));
    assert!(v2.disabled_target_ids.contains(&"user_temp".to_string()));
    assert!(v2.disabled_target_ids.contains(&"sys_temp".to_string()));
    assert!(v2.custom_exclude_paths.contains(&"C:\\MyData".to_string()));
    assert!(v2.disabled_targets.is_empty());
}

#[test]
fn test_wu_targets_config() {
    let targets = get_clean_targets("C:");
    let dl = targets.iter().find(|t| t.id == "wu_download").unwrap();
    assert_eq!(dl.level, SafetyLevel::Safe);
    let ds = targets.iter().find(|t| t.id == "wu_datastore").unwrap();
    assert_eq!(ds.level, SafetyLevel::Confirm);
    assert_eq!(ds.requires_service_stop.as_deref(), Some("wuauserv"));
    assert!(ds.glob_include.is_some());
}

#[test]
fn test_downloads_mtime_filters_recent() {
    let targets = get_clean_targets("C:");
    let dl = targets.iter().find(|t| t.id == "downloads_old").unwrap();
    assert_eq!(dl.min_size, 102_400);
}

#[test]
fn test_with_min_size_mb_converts_correctly() {
    let t = ScanTarget::new("test".into(), "%TEMP%", SafetyLevel::Safe, Category::Temp, "test".into())
        .with_min_size_mb(50);
    assert_eq!(t.min_size, 52_428_800, "50MB should be 52_428_800 bytes");
    let t2 = ScanTarget::new("test2".into(), "%TEMP%", SafetyLevel::Safe, Category::Temp, "test2".into())
        .with_min_size_mb(100);
    assert_eq!(t2.min_size, 104_857_600, "100MB should be 104_857_600 bytes");
}

#[test]
fn test_category_default_min_size() {
    assert_eq!(Category::Cache.default_min_size(), 512);
    assert_eq!(Category::Logs.default_min_size(), 4096);
    assert_eq!(Category::Temp.default_min_size(), 1024);
    assert_eq!(Category::Prefetch.default_min_size(), 1024);
    assert_eq!(Category::RecycleBin.default_min_size(), 1024);
    assert_eq!(Category::OldInstall.default_min_size(), 1024);
    assert_eq!(Category::AppCache.default_min_size(), 1024);
    assert_eq!(Category::DevCache.default_min_size(), 1024);
}

#[test]
fn test_placeholder_returns_non_empty() {
    let result = placeholder();
    assert!(!result.is_empty(), "placeholder should return a non-empty string");
    assert!(result.contains("cleaner"), "placeholder should mention 'cleaner', got: {result}");
}

#[test]
fn test_data_dir() {
    let dir = config_dir(&windows_env());
    assert!(dir.contains("PonyClean"), "data_dir should end with PonyClean");
    assert_eq!(dir, "C:\\Users\\me\\AppData\\Local\\PonyClean");
}

fn disk_cfg(mb: Option<u64>, depth: Option<usize>) -> PonyConfig {
    PonyConfig { disk_scan: Some(DiskScanConfig { min_bytes_mb: mb, dir_depth: depth }), ..Default::default() }
}

/// A configuration read from the JSON text of a configuration file (only the fields
/// these tests use).
fn config_from_json(text: &str) -> PonyConfig {
    let v: serde_json::Value = serde_json::from_str(text).unwrap();
    let mut cfg = PonyConfig::default();
    if let Some(d) = v.get("disk_scan") {
        cfg.disk_scan = Some(DiskScanConfig {
            min_bytes_mb: d.get("min_bytes_mb").and_then(|x| x.as_u64()),
            dir_depth: d.get("dir_depth").and_then(|x| x.as_u64()).map(|x| x as usize),
        });
    }
    cfg
}

#[test]
fn test_disk_scan_config_missing_field_defaults() {
    let cfg = config_from_json("{}");
    assert_eq!(cfg.disk_scan_params(), (100, 3));
    let cfg = config_from_json(r#"{"disk_scan": {}}"#);
    assert_eq!(cfg.disk_scan_params(), (100, 3));
}

#[test]
fn test_disk_scan_config_partial_field() {
    let cfg = config_from_json(r#"{"disk_scan": {"min_bytes_mb": 500}}"#);
    assert_eq!(cfg.disk_scan_params(), (500, 3));
    let cfg = config_from_json(r#"{"disk_scan": {"dir_depth": 5}}"#);
    assert_eq!(cfg.disk_scan_params(), (100, 5));
}

#[test]
fn test_disk_scan_config_clamp_out_of_range() {
    let cfg = config_from_json(r#"{"disk_scan": {"min_bytes_mb": 0, "dir_depth": 0}}"#);
    assert_eq!(cfg.disk_scan_params(), (50, 1));
    let cfg = config_from_json(r#"{"disk_scan": {"min_bytes_mb": 99999999, "dir_depth": 999}}"#);
    assert_eq!(cfg.disk_scan_params(), (10_000, 5));
    let cfg = config_from_json(r#"{"disk_scan": {"min_bytes_mb": 49, "dir_depth": 0}}"#);
    assert_eq!(cfg.disk_scan_params(), (50, 1));
    let cfg = config_from_json(r#"{"disk_scan": {"min_bytes_mb": 50, "dir_depth": 1}}"#);
    assert_eq!(cfg.disk_scan_params(), (50, 1));
    let cfg = config_from_json(r#"{"disk_scan": {"min_bytes_mb": 10000, "dir_depth": 5}}"#);
    assert_eq!(cfg.disk_scan_params(), (10_000, 5));
    let cfg = config_from_json(r#"{"disk_scan": {"min_bytes_mb": 10001, "dir_depth": 6}}"#);
    assert_eq!(cfg.disk_scan_params(), (10_000, 5));
}

/// The JSON text of a configuration's disk scan section.
fn config_to_json(cfg: &PonyConfig) -> String {
    let mut root = serde_json::Map::new();
    if let Some(d) = &cfg.disk_scan {
        let mut section = serde_json::Map::new();
        section.insert("min_bytes_mb".to_string(), d.min_bytes_mb.map_or(serde_json::Value::Null, serde_json::Value::from));
        section.insert("dir_depth".to_string(), d.dir_depth.map_or(serde_json::Value::Null, |x| serde_json::Value::from(x as u64)));
        root.insert("disk_scan".to_string(), serde_json::Value::Object(section));
    }
    serde_json::Value::Object(root).to_string()
}

#[test]
fn test_disk_scan_config_roundtrip() {
    let cfg = disk_cfg(Some(500), Some(4));
    let json = config_to_json(&cfg);
    let back = config_from_json(&json);
    assert_eq!(back.disk_scan_params(), (500, 4));
}

#[test]
fn test_load_config_default() {
    let config = migrate_config(PonyConfig::default());
    assert!(config.version.is_none() || config.version == Some(3));
}

#[test]
fn migrate_config_upgrades_old_versions_once() {
    let v1 = PonyConfig { disabled_targets: vec!["%TEMP%".into()], ..Default::default() };
    let v3 = migrate_config(v1);
    assert_eq!(v3.version, Some(3));
    assert!(v3.disabled_target_ids.contains(&"user_temp".to_string()));
    assert!(v3.disabled_targets.is_empty());
    // Running the migration again changes nothing.
    let again = migrate_config(v3.clone());
    assert_eq!(again.version, Some(3));
    assert_eq!(again.disabled_target_ids, v3.disabled_target_ids);
}

#[test]
fn filtered_targets_keep_builtins_before_customs() {
    let mut config = PonyConfig::default();
    config.custom_targets.push(custom("zz_custom", "D:\\Cache", SafetyLevel::Confirm, Category::AppCache, true));
    config.disabled_target_ids.push("user_temp".into());
    let filtered = get_filtered_targets(&config, "C:");
    assert_eq!(filtered.len(), 54);
    assert_eq!(filtered.last().unwrap().id, "zz_custom");
    assert!(!filtered.iter().any(|t| t.id == "user_temp"));
}
