//! The built-in cleaning targets.

use vstd::prelude::*;
use crate::cleaner::{
    BrowserProfileConfig, BrowserProfileView, Category, SafetyLevel, ScanTarget, TargetView,
    target_spec, targets_view,
};
use crate::text::{chars_of, push_str, string_of};

verus! {

/// `a` followed by `b`.
pub fn concat_str(a: &str, b: &str) -> (r: String)
    ensures
        r@ == a@ + b@,
{
    let mut v = chars_of(a);
    push_str(&mut v, b);
    string_of(&v)
}

/// Built-in targets, part 1; `drive` is the system drive (such as `C:`).
pub open spec fn builtin_part1(drive: Seq<char>) -> Seq<TargetView> {
    seq![
        target_spec("user_temp"@, "%TEMP%"@, SafetyLevel::Safe, Category::Temp, "用户临时文件"@),
        target_spec("local_temp"@, "%LOCALAPPDATA%\\Temp"@, SafetyLevel::Safe, Category::Temp, "当前用户临时文件"@),
        target_spec("sys_temp"@, "%WINDIR%\\Temp"@, SafetyLevel::Confirm, Category::Temp, "系统临时文件"@),
        target_spec("prefetch"@, drive + "\\Windows\\Prefetch"@, SafetyLevel::Confirm, Category::Prefetch, "应用启动缓存"@),
        target_spec("chrome_code_cache"@, "%LOCALAPPDATA%\\Google\\Chrome\\User Data\\Default\\Code Cache"@, SafetyLevel::Safe, Category::Cache, "Chrome JS Code Cache"@),
        target_spec("chrome_cache"@, "%LOCALAPPDATA%\\Google\\Chrome\\User Data\\Default\\Cache"@, SafetyLevel::Safe, Category::Cache, "Chrome 磁盘缓存"@),
        target_spec("chrome_cache_storage"@, "%LOCALAPPDATA%\\Google\\Chrome\\User Data\\Default\\CacheStorage"@, SafetyLevel::Safe, Category::Cache, "Chrome CacheStorage"@),
        target_spec("edge_code_cache"@, "%LOCALAPPDATA%\\Microsoft\\Edge\\User Data\\Default\\Code Cache"@, SafetyLevel::Safe, Category::Cache, "Edge JS Code Cache"@),
        target_spec("edge_cache"@, "%LOCALAPPDATA%\\Microsoft\\Edge\\User Data\\Default\\Cache"@, SafetyLevel::Safe, Category::Cache, "Edge 磁盘缓存"@),
    ]
}

/// Built-in targets, part 2; `drive` is the system drive (such as `C:`).
pub open spec fn builtin_part2(drive: Seq<char>) -> Seq<TargetView> {
    seq![
        target_spec("edge_cache_storage"@, "%LOCALAPPDATA%\\Microsoft\\Edge\\User Data\\Default\\CacheStorage"@, SafetyLevel::Safe, Category::Cache, "Edge CacheStorage"@),
        (TargetView { browser_profiles: Some(BrowserProfileView { profile_patterns: seq!["default"@, ".default-release"@, ".default-esr"@, ".default-nightly"@, ".dev-edition-default"@], cache_subdirs: seq!["cache2/entries"@, "startupCache"@, "thumbnails"@, "offlineCache"@] }), ..target_spec("firefox_cache"@, "%APPDATA%\\Mozilla\\Firefox\\Profiles"@, SafetyLevel::Safe, Category::Cache, "Firefox 缓存"@) }),
        target_spec("wu_download"@, "%WINDIR%\\SoftwareDistribution\\Download"@, SafetyLevel::Safe, Category::Cache, "Windows Update 下载缓存"@),
        target_spec("driver_store"@, drive + "\\Windows\\System32\\DriverStore\\FileRepository"@, SafetyLevel::Confirm, Category::Cache, "旧驱动备份"@),
        target_spec("inet_cache"@, "%LOCALAPPDATA%\\Microsoft\\Windows\\INetCache"@, SafetyLevel::Safe, Category::Cache, "Internet 临时文件"@),
        target_spec("sys_logfiles"@, "%WINDIR%\\System32\\LogFiles"@, SafetyLevel::Confirm, Category::Logs, "系统日志文件"@),
        target_spec("sys_logs"@, "%WINDIR%\\Logs"@, SafetyLevel::Confirm, Category::Logs, "Windows 组件日志"@),
        target_spec("wer_user"@, "%LOCALAPPDATA%\\Microsoft\\Windows\\WER"@, SafetyLevel::Safe, Category::Logs, "用户错误报告"@),
        target_spec("wer_system"@, "%ALLUSERSPROFILE%\\Microsoft\\Windows\\WER"@, SafetyLevel::Safe, Category::Logs, "系统错误报告"@),
    ]
}

/// Built-in targets, part 3; `drive` is the system drive (such as `C:`).
pub open spec fn builtin_part3(drive: Seq<char>) -> Seq<TargetView> {
    seq![
        (TargetView { glob_include: Some(seq!["*WER*"@]), ..target_spec("wer_temp_user"@, "%LOCALAPPDATA%\\Temp"@, SafetyLevel::Safe, Category::Logs, "Temp 中 WER"@) }),
        (TargetView { glob_include: Some(seq!["*WER*"@]), ..target_spec("wer_temp_sys"@, "%WINDIR%\\Temp"@, SafetyLevel::Safe, Category::Logs, "系统 Temp 中 WER"@) }),
        (TargetView { glob_include: Some(seq!["SRUDB.dat"@]), ..target_spec("sru"@, "%WINDIR%\\System32\\sru"@, SafetyLevel::Confirm, Category::Logs, "系统资源使用统计（仅 SRUDB.dat）"@) }),
        target_spec("inet_cache_ie"@, "%LOCALAPPDATA%\\Microsoft\\Windows\\INetCache\\IE"@, SafetyLevel::Safe, Category::Cache, "IE/Edge 传统 Internet 缓存"@),
        target_spec("oobe_info"@, "%WINDIR%\\System32\\oobe\\info"@, SafetyLevel::Safe, Category::Temp, "OOBE 安装信息残留"@),
        target_spec("ntms_data"@, "%WINDIR%\\System32\\NtmsData"@, SafetyLevel::Safe, Category::Temp, "可移动存储管理数据"@),
        target_spec("downloaded_progs"@, "%WINDIR%\\Downloaded Program Files"@, SafetyLevel::Confirm, Category::Temp, "已下载程序文件"@),
        target_spec("flash_cache"@, "%WINDIR%\\System32\\Macromed\\Flash"@, SafetyLevel::Safe, Category::Cache, "Flash 共享对象"@),
        (TargetView { requires_service_stop: Some("wuauserv"@), glob_include: Some(seq!["*.db"@, "*.edb"@, "*.jrs"@, "*.blb"@, "*.log"@]), ..target_spec("wu_datastore"@, "%WINDIR%\\SoftwareDistribution\\DataStore"@, SafetyLevel::Confirm, Category::Cache, "Windows 更新数据库（停用更新服务后清理）"@) }),
    ]
}

/// Built-in targets, part 4; `drive` is the system drive (such as `C:`).
pub open spec fn builtin_part4(drive: Seq<char>) -> Seq<TargetView> {
    seq![
        target_spec("spool_servers"@, "%WINDIR%\\System32\\spool\\SERVERS"@, SafetyLevel::Safe, Category::Temp, "打印服务器临时文件"@),
        target_spec("msdtc_trace"@, "%WINDIR%\\System32\\MsDtc\\Trace"@, SafetyLevel::Safe, Category::Logs, "分布式事务协调器日志"@),
        target_spec("uwp_temp"@, "%LOCALAPPDATA%\\Packages"@, SafetyLevel::Safe, Category::Temp, "UWP 临时文件"@),
        target_spec("uwp_inet_cache"@, "%LOCALAPPDATA%\\Packages"@, SafetyLevel::Safe, Category::Cache, "UWP Internet 缓存"@),
        target_spec("uwp_local_cache"@, "%LOCALAPPDATA%\\Packages"@, SafetyLevel::Safe, Category::Cache, "UWP 本地缓存"@),
        target_spec("windows_app_cache"@, "%LOCALAPPDATA%\\Microsoft\\Windows\\AppCache"@, SafetyLevel::Safe, Category::Cache, "Windows App 缓存"@),
        target_spec("ts_client_cache"@, "%LOCALAPPDATA%\\Microsoft\\TerminalServer Client\\Cache"@, SafetyLevel::Safe, Category::Cache, "远程桌面图标缓存"@),
        (TargetView { min_size: 102400, ..target_spec("downloads_old"@, "%USERPROFILE%\\Downloads"@, SafetyLevel::Confirm, Category::Temp, "下载文件夹过时文件"@) }),
        target_spec("crashdumps"@, "%USERPROFILE%\\AppData\\Local\\CrashDumps"@, SafetyLevel::Safe, Category::Logs, "应用崩溃转储"@),
    ]
}

/// Built-in targets, part 5; `drive` is the system drive (such as `C:`).
pub open spec fn builtin_part5(drive: Seq<char>) -> Seq<TargetView> {
    seq![
        (TargetView { glob_include: Some(seq!["*.etl"@]), ..target_spec("etl_logs"@, "%LOCALAPPDATA%\\Temp"@, SafetyLevel::Safe, Category::Logs, "事件跟踪日志"@) }),
        (TargetView { glob_include: Some(seq!["*.log"@]), ..target_spec("app_logs"@, "%LOCALAPPDATA%\\Temp"@, SafetyLevel::Safe, Category::Logs, "应用日志"@) }),
        target_spec("wmp_cache"@, "%LOCALAPPDATA%\\Microsoft\\Media Player"@, SafetyLevel::Safe, Category::Cache, "WMP 媒体库缓存"@),
        target_spec("explorer_cache"@, "%LOCALAPPDATA%\\Microsoft\\Windows\\Caches"@, SafetyLevel::Safe, Category::Cache, "资源管理器缓存"@),
        target_spec("sys_reset"@, drive + "\\$SysReset"@, SafetyLevel::Confirm, Category::Temp, "系统重置备份"@),
        target_spec("win_upgrade_tmp"@, drive + "\\$Windows.~BT"@, SafetyLevel::Confirm, Category::Temp, "Windows 升级临时文件"@),
        target_spec("discord_cache"@, "%APPDATA%\\discord\\Cache"@, SafetyLevel::Safe, Category::AppCache, "Discord 缓存文件"@),
        target_spec("discord_code_cache"@, "%APPDATA%\\discord\\Code Cache"@, SafetyLevel::Safe, Category::AppCache, "Discord JS Code Cache"@),
        target_spec("steam_cache"@, "%LOCALAPPDATA%\\Steam\\htmlcache"@, SafetyLevel::Safe, Category::AppCache, "Steam 内置浏览器缓存"@),
    ]
}

/// Built-in targets, part 6; `drive` is the system drive (such as `C:`).
pub open spec fn builtin_part6(drive: Seq<char>) -> Seq<TargetView> {
    seq![
        target_spec("wechat_cache"@, "%LOCALAPPDATA%\\WeChat\\XPlugin\\Plugins"@, SafetyLevel::Confirm, Category::AppCache, "微信插件缓存（清理后自动重建）"@),
        target_spec("wechat_files"@, "%LOCALAPPDATA%\\WeChat\\WeChatApp\\Cache"@, SafetyLevel::Safe, Category::AppCache, "微信应用缓存"@),
        target_spec("qq_cache"@, "%LOCALAPPDATA%\\Tencent\\QQ\\Temp"@, SafetyLevel::Safe, Category::AppCache, "QQ 临时缓存"@),
        target_spec("electron_cache"@, "%APPDATA%\\electron\\Cache"@, SafetyLevel::Safe, Category::AppCache, "Electron 框架缓存（Electron 基础框架缓存）"@),
        target_spec("npm_cache"@, "%APPDATA%\\npm-cache"@, SafetyLevel::Safe, Category::DevCache, "npm 包缓存"@),
        target_spec("pip_cache"@, "%LOCALAPPDATA%\\pip\\cache"@, SafetyLevel::Safe, Category::DevCache, "pip 包缓存"@),
        target_spec("cargo_cache"@, "%USERPROFILE%\\.cargo\\registry"@, SafetyLevel::Safe, Category::DevCache, "Cargo 注册表缓存（清理后需重新下载 crate）"@),
        target_spec("cargo_git"@, "%USERPROFILE%\\.cargo\\git"@, SafetyLevel::Safe, Category::DevCache, "Cargo git 依赖缓存"@),
        target_spec("gradle_cache"@, "%USERPROFILE%\\.gradle\\caches"@, SafetyLevel::Confirm, Category::DevCache, "Gradle 构建缓存（清理后构建速度下降）"@),
    ]
}

/// The built-in targets for system drive `drive`, in order.
pub open spec fn builtin_targets(drive: Seq<char>) -> Seq<TargetView> {
    builtin_part1(drive) + builtin_part2(drive) + builtin_part3(drive) + builtin_part4(drive) + builtin_part5(drive) + builtin_part6(drive)
}

fn push_part1(v: &mut Vec<ScanTarget>, drive: &str)
    ensures
        targets_view(final(v)@) =~= targets_view(old(v)@) + builtin_part1(drive@),
{
    let ghost start = v@;
        v.push(ScanTarget::new("user_temp".to_owned(), "%TEMP%", SafetyLevel::Safe, Category::Temp, "用户临时文件".to_owned()));
        v.push(ScanTarget::new("local_temp".to_owned(), "%LOCALAPPDATA%\\Temp", SafetyLevel::Safe, Category::Temp, "当前用户临时文件".to_owned()));
        v.push(ScanTarget::new("sys_temp".to_owned(), "%WINDIR%\\Temp", SafetyLevel::Confirm, Category::Temp, "系统临时文件".to_owned()));
        let p = concat_str(drive, "\\Windows\\Prefetch");
        v.push(ScanTarget::new("prefetch".to_owned(), p.as_str(), SafetyLevel::Confirm, Category::Prefetch, "应用启动缓存".to_owned()));
        v.push(ScanTarget::new("chrome_code_cache".to_owned(), "%LOCALAPPDATA%\\Google\\Chrome\\User Data\\Default\\Code Cache", SafetyLevel::Safe, Category::Cache, "Chrome JS Code Cache".to_owned()));
        v.push(ScanTarget::new("chrome_cache".to_owned(), "%LOCALAPPDATA%\\Google\\Chrome\\User Data\\Default\\Cache", SafetyLevel::Safe, Category::Cache, "Chrome 磁盘缓存".to_owned()));
        v.push(ScanTarget::new("chrome_cache_storage".to_owned(), "%LOCALAPPDATA%\\Google\\Chrome\\User Data\\Default\\CacheStorage", SafetyLevel::Safe, Category::Cache, "Chrome CacheStorage".to_owned()));
        v.push(ScanTarget::new("edge_code_cache".to_owned(), "%LOCALAPPDATA%\\Microsoft\\Edge\\User Data\\Default\\Code Cache", SafetyLevel::Safe, Category::Cache, "Edge JS Code Cache".to_owned()));
        v.push(ScanTarget::new("edge_cache".to_owned(), "%LOCALAPPDATA%\\Microsoft\\Edge\\User Data\\Default\\Cache", SafetyLevel::Safe, Category::Cache, "Edge 磁盘缓存".to_owned()));
    proof {
        assert(targets_view(v@) =~= targets_view(start) + builtin_part1(drive@));
    }
}

fn push_part2(v: &mut Vec<ScanTarget>, drive: &str)
    ensures
        targets_view(final(v)@) =~= targets_view(old(v)@) + builtin_part2(drive@),
{
    let ghost start = v@;
        v.push(ScanTarget::new("edge_cache_storage".to_owned(), "%LOCALAPPDATA%\\Microsoft\\Edge\\User Data\\Default\\CacheStorage", SafetyLevel::Safe, Category::Cache, "Edge CacheStorage".to_owned()));
        let pp = vec!["default".to_owned(), ".default-release".to_owned(), ".default-esr".to_owned(), ".default-nightly".to_owned(), ".dev-edition-default".to_owned()];
        assert(pp.deep_view() =~= seq!["default"@, ".default-release"@, ".default-esr"@, ".default-nightly"@, ".dev-edition-default"@]);
        let cs = vec!["cache2/entries".to_owned(), "startupCache".to_owned(), "thumbnails".to_owned(), "offlineCache".to_owned()];
        assert(cs.deep_view() =~= seq!["cache2/entries"@, "startupCache"@, "thumbnails"@, "offlineCache"@]);
        v.push(ScanTarget::new("firefox_cache".to_owned(), "%APPDATA%\\Mozilla\\Firefox\\Profiles", SafetyLevel::Safe, Category::Cache, "Firefox 缓存".to_owned()).with_browser(BrowserProfileConfig { profile_patterns: pp, cache_subdirs: cs }));
        v.push(ScanTarget::new("wu_download".to_owned(), "%WINDIR%\\SoftwareDistribution\\Download", SafetyLevel::Safe, Category::Cache, "Windows Update 下载缓存".to_owned()));
        let p = concat_str(drive, "\\Windows\\System32\\DriverStore\\FileRepository");
        v.push(ScanTarget::new("driver_store".to_owned(), p.as_str(), SafetyLevel::Confirm, Category::Cache, "旧驱动备份".to_owned()));
        v.push(ScanTarget::new("inet_cache".to_owned(), "%LOCALAPPDATA%\\Microsoft\\Windows\\INetCache", SafetyLevel::Safe, Category::Cache, "Internet 临时文件".to_owned()));
        v.push(ScanTarget::new("sys_logfiles".to_owned(), "%WINDIR%\\System32\\LogFiles", SafetyLevel::Confirm, Category::Logs, "系统日志文件".to_owned()));
        v.push(ScanTarget::new("sys_logs".to_owned(), "%WINDIR%\\Logs", SafetyLevel::Confirm, Category::Logs, "Windows 组件日志".to_owned()));
        v.push(ScanTarget::new("wer_user".to_owned(), "%LOCALAPPDATA%\\Microsoft\\Windows\\WER", SafetyLevel::Safe, Category::Logs, "用户错误报告".to_owned()));
        v.push(ScanTarget::new("wer_system".to_owned(), "%ALLUSERSPROFILE%\\Microsoft\\Windows\\WER", SafetyLevel::Safe, Category::Logs, "系统错误报告".to_owned()));
    proof {
        assert(targets_view(v@) =~= targets_view(start) + builtin_part2(drive@));
    }
}

fn push_part3(v: &mut Vec<ScanTarget>, drive: &str)
    ensures
        targets_view(final(v)@) =~= targets_view(old(v)@) + builtin_part3(drive@),
{
    let ghost start = v@;
        let g = vec!["*WER*".to_owned()];
        assert(g.deep_view() =~= seq!["*WER*"@]);
        v.push(ScanTarget::new("wer_temp_user".to_owned(), "%LOCALAPPDATA%\\Temp", SafetyLevel::Safe, Category::Logs, "Temp 中 WER".to_owned()).with_glob(g));
        let g = vec!["*WER*".to_owned()];
        assert(g.deep_view() =~= seq!["*WER*"@]);
        v.push(ScanTarget::new("wer_temp_sys".to_owned(), "%WINDIR%\\Temp", SafetyLevel::Safe, Category::Logs, "系统 Temp 中 WER".to_owned()).with_glob(g));
        let g = vec!["SRUDB.dat".to_owned()];
        assert(g.deep_view() =~= seq!["SRUDB.dat"@]);
        v.push(ScanTarget::new("sru".to_owned(), "%WINDIR%\\System32\\sru", SafetyLevel::Confirm, Category::Logs, "系统资源使用统计（仅 SRUDB.dat）".to_owned()).with_glob(g));
        v.push(ScanTarget::new("inet_cache_ie".to_owned(), "%LOCALAPPDATA%\\Microsoft\\Windows\\INetCache\\IE", SafetyLevel::Safe, Category::Cache, "IE/Edge 传统 Internet 缓存".to_owned()));
        v.push(ScanTarget::new("oobe_info".to_owned(), "%WINDIR%\\System32\\oobe\\info", SafetyLevel::Safe, Category::Temp, "OOBE 安装信息残留".to_owned()));
        v.push(ScanTarget::new("ntms_data".to_owned(), "%WINDIR%\\System32\\NtmsData", SafetyLevel::Safe, Category::Temp, "可移动存储管理数据".to_owned()));
        v.push(ScanTarget::new("downloaded_progs".to_owned(), "%WINDIR%\\Downloaded Program Files", SafetyLevel::Confirm, Category::Temp, "已下载程序文件".to_owned()));
        v.push(ScanTarget::new("flash_cache".to_owned(), "%WINDIR%\\System32\\Macromed\\Flash", SafetyLevel::Safe, Category::Cache, "Flash 共享对象".to_owned()));
        let g = vec!["*.db".to_owned(), "*.edb".to_owned(), "*.jrs".to_owned(), "*.blb".to_owned(), "*.log".to_owned()];
        assert(g.deep_view() =~= seq!["*.db"@, "*.edb"@, "*.jrs"@, "*.blb"@, "*.log"@]);
        v.push(ScanTarget::new("wu_datastore".to_owned(), "%WINDIR%\\SoftwareDistribution\\DataStore", SafetyLevel::Confirm, Category::Cache, "Windows 更新数据库（停用更新服务后清理）".to_owned()).with_service_stop("wuauserv".to_owned()).with_glob(g));
    proof {
        assert(targets_view(v@) =~= targets_view(start) + builtin_part3(drive@));
    }
}

fn push_part4(v: &mut Vec<ScanTarget>, drive: &str)
    ensures
        targets_view(final(v)@) =~= targets_view(old(v)@) + builtin_part4(drive@),
{
    let ghost start = v@;
        v.push(ScanTarget::new("spool_servers".to_owned(), "%WINDIR%\\System32\\spool\\SERVERS", SafetyLevel::Safe, Category::Temp, "打印服务器临时文件".to_owned()));
        v.push(ScanTarget::new("msdtc_trace".to_owned(), "%WINDIR%\\System32\\MsDtc\\Trace", SafetyLevel::Safe, Category::Logs, "分布式事务协调器日志".to_owned()));
        v.push(ScanTarget::new("uwp_temp".to_owned(), "%LOCALAPPDATA%\\Packages", SafetyLevel::Safe, Category::Temp, "UWP 临时文件".to_owned()));
        v.push(ScanTarget::new("uwp_inet_cache".to_owned(), "%LOCALAPPDATA%\\Packages", SafetyLevel::Safe, Category::Cache, "UWP Internet 缓存".to_owned()));
        v.push(ScanTarget::new("uwp_local_cache".to_owned(), "%LOCALAPPDATA%\\Packages", SafetyLevel::Safe, Category::Cache, "UWP 本地缓存".to_owned()));
        v.push(ScanTarget::new("windows_app_cache".to_owned(), "%LOCALAPPDATA%\\Microsoft\\Windows\\AppCache", SafetyLevel::Safe, Category::Cache, "Windows App 缓存".to_owned()));
        v.push(ScanTarget::new("ts_client_cache".to_owned(), "%LOCALAPPDATA%\\Microsoft\\TerminalServer Client\\Cache", SafetyLevel::Safe, Category::Cache, "远程桌面图标缓存".to_owned()));
        v.push(ScanTarget::new("downloads_old".to_owned(), "%USERPROFILE%\\Downloads", SafetyLevel::Confirm, Category::Temp, "下载文件夹过时文件".to_owned()).with_min_size(102400));
        v.push(ScanTarget::new("crashdumps".to_owned(), "%USERPROFILE%\\AppData\\Local\\CrashDumps", SafetyLevel::Safe, Category::Logs, "应用崩溃转储".to_owned()));
    proof {
        assert(targets_view(v@) =~= targets_view(start) + builtin_part4(drive@));
    }
}

fn push_part5(v: &mut Vec<ScanTarget>, drive: &str)
    ensures
        targets_view(final(v)@) =~= targets_view(old(v)@) + builtin_part5(drive@),
{
    let ghost start = v@;
        let g = vec!["*.etl".to_owned()];
        assert(g.deep_view() =~= seq!["*.etl"@]);
        v.push(ScanTarget::new("etl_logs".to_owned(), "%LOCALAPPDATA%\\Temp", SafetyLevel::Safe, Category::Logs, "事件跟踪日志".to_owned()).with_glob(g));
        let g = vec!["*.log".to_owned()];
        assert(g.deep_view() =~= seq!["*.log"@]);
        v.push(ScanTarget::new("app_logs".to_owned(), "%LOCALAPPDATA%\\Temp", SafetyLevel::Safe, Category::Logs, "应用日志".to_owned()).with_glob(g));
        v.push(ScanTarget::new("wmp_cache".to_owned(), "%LOCALAPPDATA%\\Microsoft\\Media Player", SafetyLevel::Safe, Category::Cache, "WMP 媒体库缓存".to_owned()));
        v.push(ScanTarget::new("explorer_cache".to_owned(), "%LOCALAPPDATA%\\Microsoft\\Windows\\Caches", SafetyLevel::Safe, Category::Cache, "资源管理器缓存".to_owned()));
        let p = concat_str(drive, "\\$SysReset");
        v.push(ScanTarget::new("sys_reset".to_owned(), p.as_str(), SafetyLevel::Confirm, Category::Temp, "系统重置备份".to_owned()));
        let p = concat_str(drive, "\\$Windows.~BT");
        v.push(ScanTarget::new("win_upgrade_tmp".to_owned(), p.as_str(), SafetyLevel::Confirm, Category::Temp, "Windows 升级临时文件".to_owned()));
        v.push(ScanTarget::new("discord_cache".to_owned(), "%APPDATA%\\discord\\Cache", SafetyLevel::Safe, Category::AppCache, "Discord 缓存文件".to_owned()));
        v.push(ScanTarget::new("discord_code_cache".to_owned(), "%APPDATA%\\discord\\Code Cache", SafetyLevel::Safe, Category::AppCache, "Discord JS Code Cache".to_owned()));
        v.push(ScanTarget::new("steam_cache".to_owned(), "%LOCALAPPDATA%\\Steam\\htmlcache", SafetyLevel::Safe, Category::AppCache, "Steam 内置浏览器缓存".to_owned()));
    proof {
        assert(targets_view(v@) =~= targets_view(start) + builtin_part5(drive@));
    }
}

fn push_part6(v: &mut Vec<ScanTarget>, drive: &str)
    ensures
        targets_view(final(v)@) =~= targets_view(old(v)@) + builtin_part6(drive@),
{
    let ghost start = v@;
        v.push(ScanTarget::new("wechat_cache".to_owned(), "%LOCALAPPDATA%\\WeChat\\XPlugin\\Plugins", SafetyLevel::Confirm, Category::AppCache, "微信插件缓存（清理后自动重建）".to_owned()));
        v.push(ScanTarget::new("wechat_files".to_owned(), "%LOCALAPPDATA%\\WeChat\\WeChatApp\\Cache", SafetyLevel::Safe, Category::AppCache, "微信应用缓存".to_owned()));
        v.push(ScanTarget::new("qq_cache".to_owned(), "%LOCALAPPDATA%\\Tencent\\QQ\\Temp", SafetyLevel::Safe, Category::AppCache, "QQ 临时缓存".to_owned()));
        v.push(ScanTarget::new("electron_cache".to_owned(), "%APPDATA%\\electron\\Cache", SafetyLevel::Safe, Category::AppCache, "Electron 框架缓存（Electron 基础框架缓存）".to_owned()));
        v.push(ScanTarget::new("npm_cache".to_owned(), "%APPDATA%\\npm-cache", SafetyLevel::Safe, Category::DevCache, "npm 包缓存".to_owned()));
        v.push(ScanTarget::new("pip_cache".to_owned(), "%LOCALAPPDATA%\\pip\\cache", SafetyLevel::Safe, Category::DevCache, "pip 包缓存".to_owned()));
        v.push(ScanTarget::new("cargo_cache".to_owned(), "%USERPROFILE%\\.cargo\\registry", SafetyLevel::Safe, Category::DevCache, "Cargo 注册表缓存（清理后需重新下载 crate）".to_owned()));
        v.push(ScanTarget::new("cargo_git".to_owned(), "%USERPROFILE%\\.cargo\\git", SafetyLevel::Safe, Category::DevCache, "Cargo git 依赖缓存".to_owned()));
        v.push(ScanTarget::new("gradle_cache".to_owned(), "%USERPROFILE%\\.gradle\\caches", SafetyLevel::Confirm, Category::DevCache, "Gradle 构建缓存（清理后构建速度下降）".to_owned()));
    proof {
        assert(targets_view(v@) =~= targets_view(start) + builtin_part6(drive@));
    }
}

/// The built-in cleaning targets (the recycle bin is emptied by its own command and is
/// not a scan target); `drive` is the system drive, such as `C:`.
pub fn builtin_clean_targets(drive: &str) -> (r: Vec<ScanTarget>)
    ensures
        targets_view(r@) == builtin_targets(drive@),
        r@.len() == 54,
{
    let mut v: Vec<ScanTarget> = Vec::new();
    assert(targets_view(v@) =~= Seq::<TargetView>::empty());
    push_part1(&mut v, drive);
    push_part2(&mut v, drive);
    push_part3(&mut v, drive);
    push_part4(&mut v, drive);
    push_part5(&mut v, drive);
    push_part6(&mut v, drive);
    assert(targets_view(v@) =~= builtin_targets(drive@));
    assert(targets_view(v@).len() == v@.len());
    v
}

} // verus!
