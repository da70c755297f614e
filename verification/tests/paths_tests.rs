use pony_core::cleaner::{Category, SafetyLevel, ScanTarget};
use pony_core::paths::{
    expand_env, is_path_allowed, is_path_protected, is_path_protected_given, is_protected_by_text,
    system_drive, verify_env_path_inner, EnvVars,
};

fn windows_env() -> EnvVars {
    let mut env = EnvVars::new(true);
    env.push("SystemDrive".to_string(), "C:".to_string());
    env.push("SystemRoot".to_string(), "C:\\Windows".to_string());
    env.push("WINDIR".to_string(), "C:\\Windows".to_string());
    env.push("TEMP".to_string(), "C:\\Users\\me\\AppData\\Local\\Temp".to_string());
    env.push("LOCALAPPDATA".to_string(), "C:\\Users\\me\\AppData\\Local".to_string());
    env.push("ALLUSERSPROFILE".to_string(), "C:\\ProgramData".to_string());
    env.push("ProgramData".to_string(), "C:\\ProgramData".to_string());
    env.push("USERPROFILE".to_string(), "C:\\Users\\me".to_string());
    env
}

fn env_with_temp(temp: &str) -> EnvVars {
    let mut env = EnvVars::new(true);
    env.push("TEMP".to_string(), temp.to_string());
    env.push("SystemDrive".to_string(), "C:".to_string());
    env.push("WINDIR".to_string(), "C:\\Windows".to_string());
    env
}

fn temp_target(path: &str) -> Vec<ScanTarget> {
    vec![ScanTarget::new("t".into(), path, SafetyLevel::Safe, Category::Temp, "".into())]
}

fn protected(path: &str) -> bool {
    is_path_protected(path, &windows_env())
}

#[test]
fn test_system_drive_returns_valid() {
    let d = system_drive(&windows_env());
    assert_eq!(d.len(), 2, "system drive should be like 'C:'");
    assert_eq!(d[1], ':', "should end with colon");
    // Without SystemDrive the drive comes from SystemRoot, else the default.
    let mut only_root = EnvVars::new(true);
    only_root.push("SystemRoot".to_string(), "D:\\Windows".to_string());
    assert_eq!(system_drive(&only_root), vec!['D', ':']);
    assert_eq!(system_drive(&EnvVars::new(true)), vec!['C', ':']);
}

#[test]
fn test_expand_temp() {
    let result = expand_env("%TEMP%\\test", &windows_env());
    assert!(!result.contains("%TEMP%"), "TEMP should be expanded");
    assert!(result.ends_with("\\test"), "suffix should be preserved");
    assert_eq!(result, "C:\\Users\\me\\AppData\\Local\\Temp\\test");
}

#[test]
fn test_expand_windir() {
    let result = expand_env("%WINDIR%\\Temp", &windows_env());
    assert!(!result.contains("%WINDIR%"), "WINDIR should be expanded");
    assert!(result.ends_with("\\Temp"), "suffix should be preserved");
}

#[test]
fn test_expand_localappdata() {
    let result = expand_env("%LOCALAPPDATA%\\test", &windows_env());
    assert!(!result.contains("%LOCALAPPDATA%"));
}

#[test]
fn test_expand_systemdrive() {
    let result = expand_env("%SYSTEMDRIVE%\\Test", &windows_env());
    assert!(!result.contains("%SYSTEMDRIVE%"));
    assert!(result.ends_with("\\Test"));
    assert_eq!(result, "C:\\Test");
}

#[test]
fn test_expand_no_vars() {
    assert_eq!(expand_env("plain path", &windows_env()), "plain path");
}

#[test]
fn test_expand_alluserprofile() {
    let result = expand_env("%ALLUSERSPROFILE%\\test", &windows_env());
    assert!(!result.contains("%ALLUSERSPROFILE%"));
    assert!(result.ends_with("\\test"));
}

#[test]
fn test_expand_case_insensitive() {
    let env = env_with_temp("C:\\TestTemp");
    assert_eq!(expand_env("%temp%\\foo", &env), "C:\\TestTemp\\foo");
    assert_eq!(expand_env("%Temp%\\foo", &env), "C:\\TestTemp\\foo");
}

#[test]
fn test_expand_trailing_backslash_fixed() {
    let env = env_with_temp("C:\\TestTemp");
    let r = expand_env("%TEMP%\\", &env);
    assert!(!r.starts_with('\\'), "should not start with \\");
}

#[test]
fn expand_env_unknown_variable_left_in_place() {
    let env = windows_env();
    assert_eq!(expand_env("%NO_SUCH_VAR%\\x", &env), "%NO_SUCH_VAR%\\x");
}

#[test]
fn test_is_path_protected_system32_config() {
    assert!(protected("C:\\Windows\\System32\\config\\SAM"));
    assert!(!protected("C:\\Windows\\System32\\LogFiles\\some.log"), "LogFiles should be scannable");
}

#[test]
fn test_is_path_protected_installer() {
    assert!(protected("C:\\Windows\\Installer\\some.msi"));
}

#[test]
fn test_is_path_protected_winsxs() {
    assert!(protected("C:\\Windows\\WinSxS\\amd64_foo"));
}

#[test]
fn test_is_path_protected_tasks() {
    assert!(protected("C:\\Windows\\System32\\Tasks\\SomeTask"));
}

#[test]
fn test_is_path_protected_program_files() {
    assert!(protected("C:\\Program Files\\SomeApp"));
    assert!(protected("C:\\Program Files (x86)\\SomeApp"));
}

#[test]
fn test_is_path_protected_windows_apps() {
    assert!(protected("C:\\Program Files\\WindowsApps\\SomePkg"));
}

#[test]
fn test_is_path_not_protected() {
    assert!(!protected("C:\\Users\\me\\AppData\\Local\\Temp"));
}

#[test]
fn test_is_path_protected_separator() {
    assert!(protected("C:\\Windows\\System32\\config\\SAM"));
    assert!(protected("C:\\Windows\\System32\\Tasks\\test"));
}

#[test]
fn test_protected_winevt_logs() {
    assert!(protected("C:\\Windows\\System32\\winevt\\Logs\\Security.evtx"));
}

#[test]
fn test_protected_sleepstudy_dir() {
    assert!(protected("C:\\Windows\\System32\\sleepstudy"));
}

#[test]
fn test_sleepstudy_subfile_not_protected() {
    assert!(!protected("C:\\Windows\\System32\\sleepstudy\\sub.etl"));
}

#[test]
fn test_protected_trailing_space() {
    assert!(protected("C:\\Windows\\System32\\config\\SAM "));
}

#[test]
fn test_protected_trailing_dot() {
    assert!(protected("C:\\Windows\\System32\\config."));
}

#[test]
fn test_protected_forward_slash() {
    assert!(protected("C:/Windows/System32/config/SAM"));
}

#[test]
fn test_protected_win32_namespace() {
    assert!(protected("\\\\?\\C:\\Windows\\System32\\config\\SAM"));
}

#[test]
fn test_protected_system_volume_information() {
    assert!(protected("C:\\System Volume Information\\some"));
}

#[test]
fn test_protected_globalroot_device() {
    assert!(protected("\\\\.\\GLOBALROOT\\Device\\HarddiskVolume1\\Windows\\System32\\config\\SAM"));
    assert!(protected("\\\\?\\GLOBALROOT\\Device\\Harddisk0\\Partition1\\Windows\\System32"));
}

#[test]
fn test_protected_null_byte_after_path() {
    assert!(protected("C:\\Windows\\System32\\config\\SAM\\0..\\..\\Temp"));
}

#[test]
fn test_protected_mixed_separators() {
    assert!(protected("C:\\Windows/System32\\config/SAM"));
}

#[test]
fn protected_given_root_is_protected() {
    let env = windows_env();
    assert!(is_path_protected_given("D:\\Data", &env, true));
    assert!(!is_path_protected_given("D:\\Data", &env, false));
    assert!(is_protected_by_text("C:\\Windows\\Installer", &env));
    assert!(!is_protected_by_text("D:\\Data", &env));
}

#[test]
fn test_is_path_allowed_valid() {
    let env = windows_env();
    let targets = temp_target("%TEMP%");
    assert!(is_path_allowed("C:\\Users\\me\\AppData\\Local\\Temp\\test.txt", &targets, &env));
}

#[test]
fn test_is_path_allowed_rejected() {
    let targets = temp_target("%TEMP%");
    assert!(!is_path_allowed("C:\\Windows\\System32\\test.dll", &targets, &windows_env()));
}

#[test]
fn test_is_path_allowed_cache_category() {
    let env = windows_env();
    let targets = vec![ScanTarget::new(
        "t".into(),
        "%LOCALAPPDATA%\\Google\\Chrome",
        SafetyLevel::Safe,
        Category::Cache,
        "".into(),
    )];
    assert!(is_path_allowed("C:\\Users\\me\\AppData\\Local\\Google\\Chrome\\Cache\\f_000001", &targets, &env));
}

#[test]
fn test_is_path_allowed_trailing_slash() {
    let env = windows_env();
    let targets = temp_target("%TEMP%\\");
    assert!(
        is_path_allowed("C:\\Users\\me\\AppData\\Local\\Temp\\test.tmp", &targets, &env),
        "trailing \\ in expanded should work"
    );
}

#[test]
fn test_allowed_separator_reject_adjacent() {
    let env = env_with_temp("C:\\Temp");
    let targets = temp_target("%TEMP%");
    assert!(!is_path_allowed("C:\\Temp_malicious\\evil.exe", &targets, &env));
    assert!(is_path_allowed("C:\\Temp\\ok.txt", &targets, &env));
}

#[test]
fn allowed_ignores_case_and_namespace_prefix() {
    let env = env_with_temp("C:\\Temp");
    let targets = temp_target("%TEMP%");
    assert!(is_path_allowed("\\\\?\\c:\\temp\\File.TXT", &targets, &env));
}

#[test]
fn verify_env_path_checks_expansion() {
    let env = env_with_temp("C:\\TestTemp");
    assert!(verify_env_path_inner("C:\\TestTemp", "%TEMP%", &env));
    assert!(verify_env_path_inner("\\\\?\\C:\\TestTemp\\sub", "%TEMP%", &env));
    assert!(!verify_env_path_inner("C:\\Windows\\System32", "%TEMP%", &env));
}

#[test]
fn roots_are_protected() {
    let env = windows_env();
    assert!(is_path_protected("/", &env));
}

fn d_drive_env() -> EnvVars {
    let mut env = EnvVars::new(true);
    env.push("SystemDrive".to_string(), "D:".to_string());
    env.push("SystemRoot".to_string(), "D:\\Windows".to_string());
    env.push("ProgramData".to_string(), "D:\\ProgramData".to_string());
    env
}

#[test]
fn test_protected_prefixes_on_other_system_drive() {
    let env = d_drive_env();
    let p = "D:\\Windows\\System32\\config";
    assert!(is_path_protected(p, &env));
    assert!(is_path_protected("D:\\Windows\\System32\\config\\SAM", &env));
    assert!(is_path_protected("D:\\WINDOWS\\SYSTEM32\\CONFIG\\SAM", &env));
    assert!(is_path_protected("D:/Windows/System32/config/SAM", &env));
    assert!(is_path_protected("D:\\Program Files\\App\\app.exe", &env));
    assert!(is_path_protected("D:\\ProgramData\\Microsoft\\Windows\\Containers\\x", &env));
    assert!(is_path_protected("D:\\Windows\\System32\\sleepstudy", &env));
    assert!(!is_path_protected("D:\\Windows\\System32\\configX\\a", &env));
    assert!(!is_path_protected("D:\\Users\\me\\AppData\\Local\\Temp\\a.tmp", &env));
}
