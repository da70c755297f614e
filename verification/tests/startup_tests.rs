use pony_core::paths::EnvVars;
use pony_core::startup::{
    admin_required_msg, approved_marks_disabled, combine_attempts, base64_decode, base64_encode, decode_elevated_request, dedup_items,
    disable_file_name, elevated_exit_code, elevated_outcome, elevated_params, enable_file_name, expand_startup_env, folder_item, folder_rename_error, not_found_msg,
    ico_from_bgra, icon_data_url, is_disabled_file, is_same_reg_app, is_shortcut, is_system_item,
    launch_error, lnk_candidates, parse_command_exe, parse_command_exe_checked, pick_lnk_target,
    reg_sz_bytes, registry_command, registry_item, restore_reg_name, sort_by_name, startup_folder, StartupAction,
    StartupItem, StartupSource,
};

fn no_env() -> EnvVars {
    EnvVars::new(true)
}

fn item(name: &str, command: &str, source: StartupSource, admin: bool, enabled: bool, reg: Option<&str>) -> StartupItem {
    StartupItem {
        name: name.into(),
        command: command.into(),
        exe_path: "".into(),
        source,
        requires_admin: admin,
        enabled,
        icon: None,
        reg_name: reg.map(|s| s.to_string()),
        expand_sz: false,
    }
}

#[test]
fn parse_quoted_command() {
    assert_eq!(
        parse_command_exe("\"C:\\Program Files\\App\\app.exe\" --minimized", &no_env()).as_deref(),
        Some("C:\\Program Files\\App\\app.exe")
    );
}

#[test]
fn parse_unquoted_with_args() {
    assert_eq!(
        parse_command_exe("C:\\Tools\\thing.exe /silent", &no_env()).as_deref(),
        Some("C:\\Tools\\thing.exe")
    );
}

#[test]
fn parse_quoted_path_without_extension() {
    assert_eq!(
        parse_command_exe("\"C:\\Program Files\\App\\launcher\" --flag", &no_env()).as_deref(),
        Some("C:\\Program Files\\App\\launcher")
    );
}

#[test]
fn parse_empty_returns_none() {
    assert_eq!(parse_command_exe("   ", &no_env()), None);
    assert_eq!(parse_command_exe("", &no_env()), None);
}

#[test]
fn parse_checked_reports_undefined_inputs() {
    // A lowercase form of a different UTF-8 width cannot be cut at the same byte offset.
    assert_eq!(parse_command_exe_checked("İİ.exe", &no_env()), None);
    assert_eq!(
        parse_command_exe_checked("C:\\a.exe -x", &no_env()),
        Some(Some("C:\\a.exe".to_string()))
    );
}

#[test]
fn expand_env_replaces_known_vars() {
    let mut env = EnvVars::new(true);
    env.push("SystemRoot".to_string(), "C:\\Windows".to_string());
    let out = expand_startup_env("\"%SystemRoot%\\System32\\svchost.exe\" -k", &env);
    assert!(!out.contains("%SystemRoot%"));
    assert!(out.starts_with("\"C:\\Windows\\System32"));
    let mut env = EnvVars::new(true);
    env.push("WINDIR".to_string(), "C:\\Windows".to_string());
    let out = expand_startup_env("%windir%\\system32\\SecurityHealthSystray.exe", &env);
    assert_eq!(out, "C:\\Windows\\system32\\SecurityHealthSystray.exe");
}

#[test]
fn system_item_by_name() {
    assert!(is_system_item("MicrosoftEdgeAutoLaunch", None));
    assert!(is_system_item("WindowsUpdate", Some("C:\\Windows\\system32\\wuauclt.exe")));
    assert!(is_system_item("OneDrive", Some("C:\\Users\\me\\AppData\\Local\\OneDrive\\OneDrive.exe")));
}

#[test]
fn system_item_by_path() {
    assert!(is_system_item("Foo", Some("C:\\Windows\\System32\\foo.exe")));
    assert!(is_system_item("Foo", Some("C:\\Program Files\\Microsoft\\Edge\\msedge.exe")));
    assert!(is_system_item("Foo", Some("C:\\Program Files\\WindowsApps\\App\\app.exe")));
}

#[test]
fn third_party_item_kept() {
    assert!(!is_system_item("WeChat", Some("D:\\Tencent\\WeChat\\WeChat.exe")));
    assert!(!is_system_item("Steam", Some("C:\\Program Files (x86)\\Steam\\steam.exe")));
}

#[test]
fn lnk_path_extraction() {
    let mut bytes = Vec::new();
    for ch in "C:\\Tools\\app.exe".encode_utf16() {
        bytes.extend_from_slice(&ch.to_le_bytes());
    }
    bytes.extend_from_slice(&[0, 0]);
    let mut data = vec![0xAB, 0xCD, 1, 2, 3, 4];
    data.extend_from_slice(&bytes);
    let candidates = lnk_candidates(&data);
    let exists = vec![false; candidates.len()];
    assert_eq!(pick_lnk_target(&candidates, &exists).as_deref(), Some("C:\\Tools\\app.exe"));
}

#[test]
fn lnk_prefers_existing_candidate() {
    let cands = vec!["C:\\a.exe".to_string(), "D:\\b.exe".to_string()];
    assert_eq!(pick_lnk_target(&cands, &vec![false, true]).as_deref(), Some("D:\\b.exe"));
    assert_eq!(pick_lnk_target(&cands, &vec![false, false]).as_deref(), Some("C:\\a.exe"));
    assert_eq!(pick_lnk_target(&vec![], &vec![]), None);
}

#[test]
fn restore_reg_name_strips_legacy_suffix() {
    assert_eq!(restore_reg_name("WeChat"), "WeChat");
    assert_eq!(restore_reg_name("WeChat_disabled"), "WeChat");
    assert_eq!(restore_reg_name("AcAppDaemon_disabled_disabled"), "AcAppDaemon");
    assert_eq!(restore_reg_name("_disabled"), "_disabled");
}

#[test]
fn same_reg_app_matches_all_variants() {
    assert!(is_same_reg_app("Feishu", "Feishu"));
    assert!(is_same_reg_app("Feishu_disabled", "Feishu"));
    assert!(is_same_reg_app("DeskGo_disabled", "DeskGo"));
    assert!(is_same_reg_app("AcAppDaemon_disabled_disabled", "AcAppDaemon"));
    assert!(!is_same_reg_app("OneDrive", "Feishu"));
    assert!(!is_same_reg_app("FeishuDaemon", "Feishu"));
}

#[test]
fn folder_file_name_roundtrip() {
    assert_eq!(disable_file_name("WeChat.lnk"), "WeChat.lnk.disabled");
    assert_eq!(disable_file_name("App.exe"), "App.exe.disabled");
    assert_eq!(disable_file_name("NoExt"), "NoExt.disabled");
    assert_eq!(enable_file_name("WeChat.lnk.disabled"), "WeChat.lnk");
    assert_eq!(enable_file_name("App.exe.disabled"), "App.exe");
    assert_eq!(enable_file_name("NoExt.disabled"), "NoExt");
    assert!(is_disabled_file("WeChat.lnk.disabled"));
    assert!(is_disabled_file("NoExt.disabled"));
    assert!(!is_disabled_file("WeChat.lnk"));
    assert!(!is_disabled_file("WeChat.disabled.lnk"));
    assert_eq!(enable_file_name("WeChat.disabled.lnk"), "WeChat.lnk");
}

#[test]
fn dedup_keeps_first() {
    let mut items = vec![
        item("AppA", "cmd1", StartupSource::RegistryMachine, true, true, None),
        item("AppA", "cmd2", StartupSource::RegistryMachine, true, true, None),
        item("AppB", "", StartupSource::FolderUser, false, true, None),
    ];
    dedup_items(&mut items);
    assert_eq!(items.len(), 2);
    assert_eq!(items[0].command, "cmd1");
}

#[test]
fn dedup_enabled_wins_when_any_variant_enabled() {
    let mut items = vec![
        item("Feishu", "cmd1", StartupSource::RegistryUser, false, false, Some("Feishu")),
        item("Feishu", "cmd2", StartupSource::RegistryUser, false, true, Some("Feishu_disabled")),
    ];
    dedup_items(&mut items);
    assert_eq!(items.len(), 1);
    assert!(items[0].enabled);
    assert_eq!(items[0].reg_name.as_deref(), Some("Feishu"));
}

#[test]
fn dedup_keeps_same_name_from_other_source() {
    let mut items = vec![
        item("AppA", "cmd1", StartupSource::RegistryUser, false, true, None),
        item("AppA", "cmd2", StartupSource::RegistryMachine, true, true, None),
    ];
    dedup_items(&mut items);
    assert_eq!(items.len(), 2);
}

#[test]
fn sort_by_name_orders_items() {
    let items = vec![
        item("b", "", StartupSource::RegistryUser, false, true, None),
        item("B", "", StartupSource::RegistryUser, false, true, None),
        item("a", "", StartupSource::RegistryUser, false, true, None),
    ];
    let sorted = sort_by_name(items);
    let names: Vec<&str> = sorted.iter().map(|i| i.name.as_str()).collect();
    assert_eq!(names[0], "a");
    assert_eq!(sorted.len(), 3);
}

#[test]
fn base64_roundtrip() {
    let cases = [b"".as_slice(), b"a", b"ab", b"abc", b"hello world", "开机自启动项测试".as_bytes()];
    for c in cases {
        let encoded = base64_encode(c);
        assert_eq!(base64_decode(&encoded).as_deref(), Some(c), "case: {c:?}");
    }
}

#[test]
fn base64_rejects_invalid() {
    assert_eq!(base64_decode("!!!"), None);
    assert_eq!(base64_decode("QQ"), Some(b"A".to_vec()));
}

#[test]
fn base64_known_values() {
    assert_eq!(base64_encode(b"hello world"), "aGVsbG8gd29ybGQ=");
    assert_eq!(base64_encode(b"ab"), "YWI=");
    assert_eq!(base64_encode(b""), "");
}

#[test]
fn ico_layout_has_valid_header() {
    let ico = ico_from_bgra(4, 4, &[0u8; 4 * 4 * 4]);
    assert_eq!(&ico[0..6], &[0, 0, 1, 0, 1, 0]);
    assert_eq!(ico[6], 4);
    assert_eq!(ico[7], 4);
    assert_eq!(u16::from_le_bytes([ico[10], ico[11]]), 1);
    assert_eq!(u16::from_le_bytes([ico[12], ico[13]]), 32);
    let data_len = u32::from_le_bytes([ico[14], ico[15], ico[16], ico[17]]);
    assert_eq!(data_len as usize, ico.len() - 22);
}

#[test]
fn icon_data_url_prefix() {
    assert_eq!(icon_data_url(b"ab"), "data:image/x-icon;base64,YWI=");
}

#[test]
fn startup_action_names() {
    assert_eq!(StartupAction::Disable.as_str(), "disable");
    assert_eq!(StartupAction::parse("enable"), Some(StartupAction::Enable));
    assert_eq!(StartupAction::parse("other"), None);
}

#[test]
fn elevated_request_roundtrip() {
    let params = elevated_params(StartupAction::Enable, "QQ", "C:\\r.txt");
    assert_eq!(params, "--elevated-startup enable QQ \"C:\\r.txt\"");
    assert_eq!(decode_elevated_request("enable", "QQ"), Ok((StartupAction::Enable, b"A".to_vec())));
    assert_eq!(decode_elevated_request("bogus", "QQ"), Err("未知动作".to_string()));
    assert_eq!(decode_elevated_request("disable", "!!!"), Err("请求解码失败".to_string()));
}

#[test]
fn launch_error_codes() {
    assert_eq!(launch_error(42), None);
    assert_eq!(launch_error(2), Some("启动管理员进程失败（错误码 2）".to_string()));
    assert_eq!(launch_error(-5), Some("启动管理员进程失败（错误码 -5）".to_string()));
}

#[test]
fn admin_message_names_item() {
    let m = admin_required_msg("WeChat", "禁用");
    assert!(m.starts_with("禁用「WeChat」"));
}

#[test]
fn registry_values_and_items() {
    assert_eq!(registry_command("C:\\a.exe\0\0"), "C:\\a.exe");
    assert!(registry_item("", "x".into(), None, false, StartupSource::RegistryUser, false, true).is_none());
    assert!(registry_item(
        "MicrosoftEdgeAutoLaunch",
        "x".into(),
        None,
        false,
        StartupSource::RegistryUser,
        false,
        true
    )
    .is_none());
    let it = registry_item(
        "WeChat_disabled",
        "\"D:\\WeChat.exe\"".into(),
        Some("D:\\WeChat.exe".into()),
        true,
        StartupSource::RegistryMachine,
        true,
        false,
    )
    .unwrap();
    assert_eq!(it.name, "WeChat");
    assert_eq!(it.reg_name.as_deref(), Some("WeChat_disabled"));
    assert!(it.expand_sz);
    assert!(it.requires_admin);
    assert!(!it.enabled);
}

#[test]
fn folder_items() {
    assert!(is_shortcut("App.LNK"));
    assert!(!is_shortcut("App.exe"));
    assert!(folder_item("desktop.ini", None, StartupSource::FolderUser, false, false).is_none());
    let it = folder_item("Tool.lnk.disabled", Some("D:\\Tool.exe".into()), StartupSource::FolderUser, false, false)
        .unwrap();
    assert_eq!(it.name, "Tool");
    assert!(!it.enabled);
}

#[test]
fn startup_folders() {
    let mut env = EnvVars::new(true);
    env.push("APPDATA".to_string(), "C:\\Users\\me\\AppData\\Roaming".to_string());
    assert_eq!(
        startup_folder(StartupSource::FolderUser, &env),
        Ok("C:\\Users\\me\\AppData\\Roaming\\Microsoft\\Windows\\Start Menu\\Programs\\Startup".to_string())
    );
    assert!(startup_folder(StartupSource::FolderMachine, &env).is_err());
}

#[test]
fn registry_string_encoding() {
    assert_eq!(reg_sz_bytes(""), vec![0, 0]);
    assert_eq!(reg_sz_bytes("A"), vec![0x41, 0, 0, 0]);
    let expected: Vec<u8> = "C:\\启动😀".encode_utf16().flat_map(|u| u.to_le_bytes()).chain([0, 0]).collect();
    assert_eq!(reg_sz_bytes("C:\\启动😀"), expected);
}

#[test]
fn startup_approved_marks() {
    assert!(approved_marks_disabled(&[3, 0, 0]));
    assert!(!approved_marks_disabled(&[2, 0, 0]));
    assert!(!approved_marks_disabled(&[6]));
    assert!(!approved_marks_disabled(&[]));
}

#[test]
fn elevated_results() {
    assert_eq!(elevated_outcome(Some(true), None), Ok(()));
    assert_eq!(elevated_outcome(Some(false), Some("拒绝".into())), Err("拒绝".to_string()));
    assert_eq!(elevated_outcome(None, None), Err("未知错误".to_string()));
    assert_eq!(elevated_exit_code(&Ok(())), 0);
    assert_eq!(elevated_exit_code(&Err("x".into())), 1);
}

#[test]
fn machine_item_attempts() {
    assert_eq!(combine_attempts(&vec![Err("a".into()), Ok(())], "f".into()), Ok(()));
    assert_eq!(combine_attempts(&vec![Err("a".into()), Err("b".into())], "f".into()), Err("b".to_string()));
    assert_eq!(combine_attempts(&vec![], "f".into()), Err("f".to_string()));
}

#[test]
fn folder_messages() {
    assert_eq!(folder_rename_error("App", "关闭", false, "denied"), "关闭「App」的开机自启动失败: denied");
    assert_eq!(folder_rename_error("App", "打开", true, "denied"), admin_required_msg("App", "打开"));
    assert_eq!(not_found_msg("App"), "未找到「App」的开机自启动项");
}

#[test]
fn disable_then_enable_gives_name_back() {
    for name in ["WeChat.lnk", "NoExt", "x.disabled", ".lnk", "a.b.c.exe"] {
        let disabled = disable_file_name(name);
        assert!(is_disabled_file(&disabled));
        assert_eq!(enable_file_name(&disabled), name);
    }
    // The empty name round-trips too, but ".disabled" is a hidden file without extension.
    assert_eq!(enable_file_name(&disable_file_name("")), "");
    assert!(!is_disabled_file(&disable_file_name("")));
}

#[test]
fn restored_names_are_stable() {
    for name in ["Feishu", "Feishu_disabled", "_disabled", "a_disabled_disabled"] {
        let once = restore_reg_name(name);
        assert_eq!(restore_reg_name(&once), once);
        assert_eq!(restore_reg_name(&format!("{name}_disabled")), once);
    }
}

#[test]
fn disabled_paths() {
    assert!(is_disabled_file("dir/App.lnk.disabled"));
    assert!(!is_disabled_file("dir/App.lnk"));
}

#[test]
fn expand_env_ignores_variable_case() {
    let mut env = EnvVars::new(true);
    env.push("WINDIR".to_string(), "C:\\Windows".to_string());
    env.push("SystemRoot".to_string(), "C:\\Windows".to_string());
    assert_eq!(
        expand_startup_env("%windir%\\system32\\SecurityHealthSystray.exe", &env),
        "C:\\Windows\\system32\\SecurityHealthSystray.exe"
    );
    assert_eq!(expand_startup_env("%SYSTEMROOT%\\x.exe", &env), "C:\\Windows\\x.exe");
    assert_eq!(expand_startup_env("%WinDir%\\x.exe", &env), "C:\\Windows\\x.exe");
    assert_eq!(expand_startup_env("%UNKNOWN%\\x.exe", &env), "%UNKNOWN%\\x.exe");
}

#[test]
fn sort_by_name_keeps_equal_keys_in_order() {
    let items = vec![
        item("beta", "1", StartupSource::RegistryUser, false, true, None),
        item("Alpha", "first", StartupSource::RegistryUser, false, true, None),
        item("ALPHA", "second", StartupSource::RegistryUser, false, true, None),
        item("alpha", "third", StartupSource::RegistryUser, false, true, None),
    ];
    let sorted = sort_by_name(items);
    let commands: Vec<&str> = sorted.iter().map(|i| i.command.as_str()).collect();
    assert_eq!(commands, vec!["first", "second", "third", "1"]);
}
