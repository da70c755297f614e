//! Cleaning targets, user configuration and the bookkeeping of scans and deletions.

use vstd::prelude::*;
use crate::paths::{env_lookup, EnvVars, EnvView};
use crate::targets::{builtin_clean_targets, builtin_targets};
use crate::text::{chars_of, ends_with, push_str, same, starts_with, string_of};

verus! {

/// Batch size of `ItemsFound` events.
pub const BATCH_SIZE: usize = 500;
/// Global cap on the number of scan results.
pub const MAX_SCAN_ITEMS: u64 = 300_000;
/// Per-target cap on the number of scan results.
pub const MAX_ITEMS_PER_TARGET: u64 = 50_000;
/// Maximum number of UWP packages expanded.
pub const MAX_UWP_PACKAGES: usize = 50;
/// Age in days from which log files are considered expired.
pub const LOG_EXPIRY_DAYS: i64 = 90;
/// Default walk depth of a target.
pub const DEFAULT_MAX_DEPTH: usize = 10;
/// Number of worker groups a scan is split into.
pub const SCAN_PARALLELISM: usize = 4;

/// Safety level of a cleaning target.
#[derive(Clone, Copy, Debug, PartialEq, Eq, Structural)]
pub enum SafetyLevel {
    Safe,
    Confirm,
    Forbidden,
}

/// Category of a cleaning target (serialised in snake case).
#[derive(Clone, Copy, Debug, PartialEq, Eq, Structural)]
pub enum Category {
    Temp,
    Cache,
    Logs,
    Prefetch,
    RecycleBin,
    OldInstall,
    /// Application caches (Discord, Steam, WeChat, QQ, Electron, ...).
    AppCache,
    /// Developer tool caches (npm, pip, cargo, gradle, ...).
    DevCache,
}

impl Category {
    /// Default minimum file size of a category: 512 for caches, 4096 for logs, 1024 otherwise.
    pub open spec fn min_size_spec(self) -> u64 {
        match self {
            Category::Cache => 512,
            Category::Logs => 4096,
            _ => 1024,
        }
    }

    /// Snake-case name of a category.
    pub open spec fn name_spec(self) -> Seq<char> {
        match self {
            Category::Temp => "temp"@,
            Category::Cache => "cache"@,
            Category::Logs => "logs"@,
            Category::Prefetch => "prefetch"@,
            Category::RecycleBin => "recycle_bin"@,
            Category::OldInstall => "old_install"@,
            Category::AppCache => "app_cache"@,
            Category::DevCache => "dev_cache"@,
        }
    }

    pub fn default_min_size(&self) -> (r: u64)
        ensures
            r == self.min_size_spec(),
    {
        match self {
            Category::Cache => 512,
            Category::Logs => 4096,
            _ => 1024,
        }
    }

    /// The category's snake-case name (`temp`, `old_install`, ...).
    pub fn to_string(&self) -> (s: String)
        ensures
            s@ == self.name_spec(),
    {
        let lit = match self {
            Category::Temp => "temp",
            Category::Cache => "cache",
            Category::Logs => "logs",
            Category::Prefetch => "prefetch",
            Category::RecycleBin => "recycle_bin",
            Category::OldInstall => "old_install",
            Category::AppCache => "app_cache",
            Category::DevCache => "dev_cache",
        };
        lit.to_owned()
    }
}

/// Browser profile matching: profile directory patterns and the cache sub-directories.
#[derive(Clone, Debug)]
pub struct BrowserProfileConfig {
    pub profile_patterns: Vec<String>,
    pub cache_subdirs: Vec<String>,
}

pub struct BrowserProfileView {
    pub profile_patterns: Seq<Seq<char>>,
    pub cache_subdirs: Seq<Seq<char>>,
}

impl View for BrowserProfileConfig {
    type V = BrowserProfileView;

    open spec fn view(&self) -> BrowserProfileView {
        BrowserProfileView {
            profile_patterns: self.profile_patterns.deep_view(),
            cache_subdirs: self.cache_subdirs.deep_view(),
        }
    }
}

/// A file found by a scan.
#[derive(Clone, Debug)]
pub struct CleanItem {
    pub path: String,
    pub size_bytes: u64,
    pub level: SafetyLevel,
    pub category: String,
}

/// Typed scan warnings.
#[derive(Clone, Debug)]
pub enum ScanWarning {
    MaxItemsReached { target_id: String, items: u64 },
    PermissionDenied { target_id: String, path: String },
    GlobNoMatch { target_id: String, pattern: String },
    ServiceStopFailed { target_id: String, service: String, reason: String },
    EnvInjectionDetected { target_id: String, path: String },
}

/// Scan progress events.
#[derive(Clone, Debug)]
pub enum ScanEvent {
    Progress { scanned: u64, current: String },
    ItemsFound { items: Vec<CleanItem>, batch_complete: bool },
    Done { total_items: u64, total_bytes: u64, skipped_small: u64 },
    Cancelled,
    Warning(ScanWarning),
}

/// Commands accepted by a running scan.
#[derive(Debug)]
pub enum CleanCommand {
    Execute(Vec<String>),
    EmptyRecycleBin,
    CancelScan,
    Shutdown,
}

/// Deletion progress event.
#[derive(Clone, Debug)]
pub struct DeleteProgress {
    pub done: u64,
    pub total: u64,
    pub current: String,
}

/// Outcome of a deletion batch.
#[derive(Clone, Debug)]
pub struct DeleteResult {
    pub success: u64,
    pub failed: u64,
    pub errors: Vec<String>,
}

impl Default for DeleteResult {
    fn default() -> (r: Self)
        ensures
            r.success == 0,
            r.failed == 0,
            r.errors@.len() == 0,
    {
        DeleteResult { success: 0, failed: 0, errors: Vec::new() }
    }
}

/// A cleaning target.
#[derive(Clone, Debug)]
pub struct ScanTarget {
    pub id: String,
    pub path: String,
    pub level: SafetyLevel,
    pub category: Category,
    pub description: String,
    pub min_size: u64,
    pub max_items_per_target: u64,
    pub max_depth: usize,
    pub glob_include: Option<Vec<String>>,
    pub glob_exclude: Option<Vec<String>>,
    pub requires_service_stop: Option<String>,
    pub browser_profiles: Option<BrowserProfileConfig>,
}

/// Mathematical view of a `ScanTarget`.
pub struct TargetView {
    pub id: Seq<char>,
    pub path: Seq<char>,
    pub level: SafetyLevel,
    pub category: Category,
    pub description: Seq<char>,
    pub min_size: u64,
    pub max_items_per_target: u64,
    pub max_depth: usize,
    pub glob_include: Option<Seq<Seq<char>>>,
    pub glob_exclude: Option<Seq<Seq<char>>>,
    pub requires_service_stop: Option<Seq<char>>,
    pub browser_profiles: Option<BrowserProfileView>,
}

pub open spec fn opt_strings_view(o: Option<Vec<String>>) -> Option<Seq<Seq<char>>> {
    match o {
        Some(v) => Some(v.deep_view()),
        None => None,
    }
}

pub open spec fn opt_string_view(o: Option<String>) -> Option<Seq<char>> {
    match o {
        Some(s) => Some(s@),
        None => None,
    }
}

impl View for ScanTarget {
    type V = TargetView;

    open spec fn view(&self) -> TargetView {
        TargetView {
            id: self.id@,
            path: self.path@,
            level: self.level,
            category: self.category,
            description: self.description@,
            min_size: self.min_size,
            max_items_per_target: self.max_items_per_target,
            max_depth: self.max_depth,
            glob_include: opt_strings_view(self.glob_include),
            glob_exclude: opt_strings_view(self.glob_exclude),
            requires_service_stop: opt_string_view(self.requires_service_stop),
            browser_profiles: match self.browser_profiles {
                Some(b) => Some(b@),
                None => None,
            },
        }
    }
}

/// Views of a sequence of targets.
pub open spec fn targets_view(ts: Seq<ScanTarget>) -> Seq<TargetView> {
    ts.map_values(|t: ScanTarget| t@)
}

/// A target with the defaults of `ScanTarget::new`: the category's minimum size, the
/// per-target cap, the default depth and no filters.
pub open spec fn target_spec(
    id: Seq<char>,
    path: Seq<char>,
    level: SafetyLevel,
    cat: Category,
    desc: Seq<char>,
) -> TargetView {
    TargetView {
        id,
        path,
        level,
        category: cat,
        description: desc,
        min_size: cat.min_size_spec(),
        max_items_per_target: MAX_ITEMS_PER_TARGET,
        max_depth: DEFAULT_MAX_DEPTH,
        glob_include: None,
        glob_exclude: None,
        requires_service_stop: None,
        browser_profiles: None,
    }
}

impl ScanTarget {
    pub fn new(id: String, path: &str, level: SafetyLevel, cat: Category, desc: String) -> (t: Self)
        ensures
            t@ == target_spec(id@, path@, level, cat, desc@),
    {
        let min_size = cat.default_min_size();
        ScanTarget {
            id,
            path: path.to_owned(),
            level,
            category: cat,
            description: desc,
            min_size,
            max_items_per_target: MAX_ITEMS_PER_TARGET,
            max_depth: DEFAULT_MAX_DEPTH,
            glob_include: None,
            glob_exclude: None,
            requires_service_stop: None,
            browser_profiles: None,
        }
    }

    pub fn with_min_size(self, v: u64) -> (t: Self)
        ensures
            t@ == (TargetView { min_size: v, ..self@ }),
    {
        let mut t = self;
        t.min_size = v;
        t
    }

    /// Sets the minimum file size in MiB (`mb * 1_048_576` bytes).
    pub fn with_min_size_mb(self, mb: u64) -> (t: Self)
        requires
            mb * 1_048_576 <= u64::MAX,
        ensures
            t@ == (TargetView { min_size: (mb * 1_048_576) as u64, ..self@ }),
    {
        let mut t = self;
        t.min_size = mb * 1_048_576;
        t
    }

    pub fn with_glob(self, inc: Vec<String>) -> (t: Self)
        ensures
            t@ == (TargetView { glob_include: Some(inc.deep_view()), ..self@ }),
    {
        let mut t = self;
        t.glob_include = Some(inc);
        t
    }

    pub fn with_glob_exclude(self, exc: Vec<String>) -> (t: Self)
        ensures
            t@ == (TargetView { glob_exclude: Some(exc.deep_view()), ..self@ }),
    {
        let mut t = self;
        t.glob_exclude = Some(exc);
        t
    }

    pub fn with_max_depth(self, v: usize) -> (t: Self)
        ensures
            t@ == (TargetView { max_depth: v, ..self@ }),
    {
        let mut t = self;
        t.max_depth = v;
        t
    }

    pub fn with_service_stop(self, s: String) -> (t: Self)
        ensures
            t@ == (TargetView { requires_service_stop: Some(s@), ..self@ }),
    {
        let mut t = self;
        t.requires_service_stop = Some(s);
        t
    }

    pub fn with_browser(self, b: BrowserProfileConfig) -> (t: Self)
        ensures
            t@ == (TargetView { browser_profiles: Some(b@), ..self@ }),
    {
        let mut t = self;
        t.browser_profiles = Some(b);
        t
    }
}


/// A user-defined cleaning target.
#[derive(Clone, Debug)]
pub struct CustomTarget {
    /// Unique id (ignored when it collides with a built-in target id).
    pub id: String,
    /// Directory; `%ENV%` references are expanded.
    pub path: String,
    /// Safety level (`Forbidden` targets are never scanned).
    pub level: SafetyLevel,
    pub category: Category,
    pub description: String,
    pub enabled: bool,
}

/// Per-target overrides.
#[derive(Clone, Debug)]
pub struct TargetConfig {
    pub enabled: Option<bool>,
    pub max_items: Option<u64>,
    pub exclude_subdirs: Option<Vec<String>>,
}

/// Disk analysis parameters; every field is optional.
#[derive(Clone, Debug)]
pub struct DiskScanConfig {
    /// Minimum large-file size in MiB (default 100, valid 50..=10000).
    pub min_bytes_mb: Option<u64>,
    /// Depth of the directory usage breakdown (default 3, valid 1..=5).
    pub dir_depth: Option<usize>,
}

/// User configuration.
#[derive(Clone, Debug)]
pub struct PonyConfig {
    pub version: Option<u32>,
    pub disabled_target_ids: Vec<String>,
    pub disabled_targets: Vec<String>,
    pub custom_exclude_paths: Vec<String>,
    /// Per-target overrides by target id (the first entry of an id applies).
    pub per_target_config: Vec<(String, TargetConfig)>,
    pub custom_targets: Vec<CustomTarget>,
    /// Disk analysis parameters; defaults apply when absent.
    pub disk_scan: Option<DiskScanConfig>,
}

impl Default for PonyConfig {
    fn default() -> (c: Self)
        ensures
            c.version is None,
            c.disabled_target_ids@.len() == 0,
            c.disabled_targets@.len() == 0,
            c.custom_exclude_paths@.len() == 0,
            c.per_target_config@.len() == 0,
            c.custom_targets@.len() == 0,
            c.disk_scan is None,
    {
        PonyConfig {
            version: None,
            disabled_target_ids: Vec::new(),
            disabled_targets: Vec::new(),
            custom_exclude_paths: Vec::new(),
            per_target_config: Vec::new(),
            custom_targets: Vec::new(),
            disk_scan: None,
        }
    }
}

/// `x` limited to `[lo, hi]`.
pub open spec fn clamp(x: int, lo: int, hi: int) -> int {
    if x < lo {
        lo
    } else if x > hi {
        hi
    } else {
        x
    }
}

/// The disk analysis parameters `(min_bytes_mb, dir_depth)`: configured values (defaults
/// 100 and 3) clamped to `50..=10000` and `1..=5`.
pub open spec fn disk_scan_params_spec(d: Option<DiskScanConfig>) -> (u64, usize) {
    let mb: u64 = match d {
        Some(c) => match c.min_bytes_mb {
            Some(v) => v,
            None => 100,
        },
        None => 100,
    };
    let depth: usize = match d {
        Some(c) => match c.dir_depth {
            Some(v) => v,
            None => 3,
        },
        None => 3,
    };
    (clamp(mb as int, 50, 10_000) as u64, clamp(depth as int, 1, 5) as usize)
}

impl PonyConfig {
    /// The disk analysis parameters `(min_bytes_mb, dir_depth)`, clamped to their valid
    /// ranges (guards against hand-edited configuration files).
    pub fn disk_scan_params(&self) -> (r: (u64, usize))
        ensures
            r == disk_scan_params_spec(self.disk_scan),
            50 <= r.0 <= 10_000,
            1 <= r.1 <= 5,
    {
        let mb: u64 = match &self.disk_scan {
            Some(d) => match d.min_bytes_mb {
                Some(v) => v,
                None => 100,
            },
            None => 100,
        };
        let depth: usize = match &self.disk_scan {
            Some(d) => match d.dir_depth {
                Some(v) => v,
                None => 3,
            },
            None => 3,
        };
        let mb = if mb < 50 {
            50
        } else if mb > 10_000 {
            10_000
        } else {
            mb
        };
        let depth = if depth < 1 {
            1
        } else if depth > 5 {
            5
        } else {
            depth
        };
        (mb, depth)
    }
}

/// Whether `id` occurs in `ids`.
pub fn contains_string(ids: &Vec<String>, id: &str) -> (b: bool)
    ensures
        b == ids.deep_view().contains(id@),
{
    let target = chars_of(id);
    let mut i: usize = 0;
    while i < ids.len()
        invariant
            i <= ids@.len(),
            target@ == id@,
            forall|j: int| 0 <= j < i ==> ids@[j]@ != id@,
        decreases ids@.len() - i,
    {
        let c = chars_of(ids[i].as_str());
        if same(&c, &target) {
            assert(ids.deep_view()[i as int] == id@);
            return true;
        }
        i = i + 1;
    }
    assert(!ids.deep_view().contains(id@)) by {
        if ids.deep_view().contains(id@) {
            let k = choose|k: int| 0 <= k < ids.deep_view().len() && ids.deep_view()[k] == id@;
            assert(ids@[k]@ == id@);
        }
    }
    false
}

/// The `enabled` override of the first per-target entry for `id`, if any.
pub open spec fn override_from(per: Seq<(String, TargetConfig)>, id: Seq<char>, i: int) -> Option<bool>
    decreases per.len() - i,
{
    if i < 0 || i >= per.len() {
        None
    } else if per[i].0@ == id {
        per[i].1.enabled
    } else {
        override_from(per, id, i + 1)
    }
}

/// A target is enabled unless its first per-target entry says `enabled: false`.
pub open spec fn target_enabled(per: Seq<(String, TargetConfig)>, id: Seq<char>) -> bool {
    match override_from(per, id, 0) {
        Some(b) => b,
        None => true,
    }
}

/// The per-target overrides name each id at most once, as a map does (the form the
/// configuration file gives them).
pub open spec fn distinct_override_ids(per: Seq<(String, TargetConfig)>) -> bool {
    forall|i: int, j: int| 0 <= i < j < per.len() ==> (#[trigger] per[i]).0@ != (#[trigger] per[j]).0@
}

proof fn lemma_override_from_at(per: Seq<(String, TargetConfig)>, id: Seq<char>, i: int, j: int)
    requires
        distinct_override_ids(per),
        0 <= i <= j < per.len(),
        per[j].0@ == id,
    ensures
        override_from(per, id, i) == per[j].1.enabled,
    decreases j - i,
{
    if i < j {
        assert(per[i].0@ != per[j].0@);
        lemma_override_from_at(per, id, i + 1, j);
    }
}

proof fn lemma_override_from_none(per: Seq<(String, TargetConfig)>, id: Seq<char>, i: int)
    requires
        0 <= i <= per.len(),
        forall|k: int| 0 <= k < per.len() ==> (#[trigger] per[k]).0@ != id,
    ensures
        override_from(per, id, i) is None,
    decreases per.len() - i,
{
    if i < per.len() {
        assert(per[i].0@ != id);
        lemma_override_from_none(per, id, i + 1);
    }
}

/// Law: with distinct ids the overrides act as a map from target id to setting: a
/// target whose id has an entry is enabled exactly as that entry says (`enabled` absent
/// means enabled), and a target without an entry is enabled. (With repeated ids the
/// first entry of an id applies.)
pub proof fn law_override_is_map_lookup(per: Seq<(String, TargetConfig)>, id: Seq<char>)
    requires
        distinct_override_ids(per),
    ensures
        forall|j: int|
            0 <= j < per.len() && (#[trigger] per[j]).0@ == id ==> target_enabled(per, id) == match per[j].1.enabled {
                Some(b) => b,
                None => true,
            },
        (forall|k: int| 0 <= k < per.len() ==> (#[trigger] per[k]).0@ != id) ==> target_enabled(per, id),
{
    assert forall|j: int|
        0 <= j < per.len() && (#[trigger] per[j]).0@ == id implies target_enabled(per, id) == match per[j].1.enabled {
            Some(b) => b,
            None => true,
        } by {
        lemma_override_from_at(per, id, 0, j);
    }
    if forall|k: int| 0 <= k < per.len() ==> (#[trigger] per[k]).0@ != id {
        lemma_override_from_none(per, id, 0);
    }
}

fn target_enabled_exec(per: &Vec<(String, TargetConfig)>, id: &str) -> (b: bool)
    ensures
        b == target_enabled(per@, id@),
{
    let target = chars_of(id);
    let mut i: usize = 0;
    while i < per.len()
        invariant
            i <= per@.len(),
            target@ == id@,
            override_from(per@, id@, 0) == override_from(per@, id@, i as int),
        decreases per@.len() - i,
    {
        let c = chars_of(per[i].0.as_str());
        if same(&c, &target) {
            return match per[i].1.enabled {
                Some(b) => b,
                None => true,
            };
        }
        i = i + 1;
    }
    true
}

/// A built-in target is kept unless its id is disabled or its override disables it.
pub open spec fn builtin_kept(cfg: PonyConfig, t: TargetView) -> bool {
    !cfg.disabled_target_ids.deep_view().contains(t.id) && target_enabled(
        cfg.per_target_config@,
        t.id,
    )
}

/// The kept built-in targets, in order.
pub open spec fn kept_builtins(cfg: PonyConfig, ts: Seq<TargetView>) -> Seq<TargetView>
    decreases ts.len(),
{
    if ts.len() == 0 {
        Seq::empty()
    } else {
        let rest = kept_builtins(cfg, ts.drop_last());
        if builtin_kept(cfg, ts.last()) {
            rest.push(ts.last())
        } else {
            rest
        }
    }
}

/// The target a custom target contributes: the category's default minimum size, the
/// per-target cap, the default depth and no filters.
pub open spec fn custom_target_spec(c: CustomTarget) -> TargetView {
    target_spec(c.id@, c.path@, c.level, c.category, c.description@)
}

/// Whether some target of `acc` has id `id`.
pub open spec fn has_id(acc: Seq<TargetView>, id: Seq<char>) -> bool {
    exists|i: int| 0 <= i < acc.len() && acc[i].id == id
}

/// Adding one custom target: skipped when disabled, `Forbidden`, or when its id is
/// already taken.
pub open spec fn merge_custom(acc: Seq<TargetView>, c: CustomTarget) -> Seq<TargetView> {
    if !c.enabled || c.level == SafetyLevel::Forbidden || has_id(acc, c.id@) {
        acc
    } else {
        acc.push(custom_target_spec(c))
    }
}

/// Adding the custom targets in order.
pub open spec fn merge_customs(acc: Seq<TargetView>, cs: Seq<CustomTarget>) -> Seq<TargetView>
    decreases cs.len(),
{
    if cs.len() == 0 {
        acc
    } else {
        merge_custom(merge_customs(acc, cs.drop_last()), cs.last())
    }
}

/// The targets of a configuration: kept built-in targets, then the admissible custom
/// targets.
pub open spec fn filtered_spec(cfg: PonyConfig, drive: Seq<char>) -> Seq<TargetView> {
    merge_customs(kept_builtins(cfg, builtin_targets(drive)), cfg.custom_targets@)
}

/// The built-in cleaning targets for system drive `drive` (such as `C:`).
pub fn get_clean_targets(drive: &str) -> (r: Vec<ScanTarget>)
    ensures
        targets_view(r@) == builtin_targets(drive@),
        r@.len() == 54,
{
    builtin_clean_targets(drive)
}

/// Same as `get_clean_targets`.
pub fn default_targets(drive: &str) -> (r: Vec<ScanTarget>)
    ensures
        targets_view(r@) == builtin_targets(drive@),
        r@.len() == 54,
{
    get_clean_targets(drive)
}

fn has_id_exec(acc: &Vec<ScanTarget>, id: &str) -> (b: bool)
    ensures
        b == has_id(targets_view(acc@), id@),
{
    let target = chars_of(id);
    let mut i: usize = 0;
    while i < acc.len()
        invariant
            i <= acc@.len(),
            target@ == id@,
            forall|j: int| 0 <= j < i ==> acc@[j].id@ != id@,
        decreases acc@.len() - i,
    {
        let c = chars_of(acc[i].id.as_str());
        if same(&c, &target) {
            assert(targets_view(acc@)[i as int].id == id@);
            return true;
        }
        i = i + 1;
    }
    false
}

fn custom_to_target(c: &CustomTarget) -> (t: ScanTarget)
    ensures
        t@ == custom_target_spec(*c),
{
    ScanTarget::new(c.id.clone(), c.path.as_str(), c.level, c.category, c.description.clone())
}

/// The scan targets of a configuration: built-in targets minus the disabled ones, then
/// the user's custom targets that are enabled, not `Forbidden`, and whose id is not
/// taken yet (a built-in target wins an id conflict).
pub fn get_filtered_targets(config: &PonyConfig, drive: &str) -> (r: Vec<ScanTarget>)
    ensures
        targets_view(r@) == filtered_spec(*config, drive@),
{
    let all = get_clean_targets(drive);
    let ghost all_view = targets_view(all@);
    let mut kept: Vec<ScanTarget> = Vec::new();
    assert(targets_view(kept@) =~= kept_builtins(*config, all_view.subrange(0, 0)));
    for t in it: all.into_iter()
        invariant
            it.seq() == all@,
            all_view == targets_view(all@),
            targets_view(kept@) == kept_builtins(*config, all_view.subrange(0, it.index() as int)),
    {
        let ghost k = it.index();
        assert(all_view.subrange(0, k + 1).drop_last() =~= all_view.subrange(0, k as int));
        assert(all_view.subrange(0, k + 1).last() == t@);
        let disabled = contains_string(&config.disabled_target_ids, t.id.as_str());
        let enabled = target_enabled_exec(&config.per_target_config, t.id.as_str());
        let ghost before = kept@;
        if !disabled && enabled {
            kept.push(t);
            assert(targets_view(kept@) =~= targets_view(before).push(t@));
        }
    }
    assert(all_view.subrange(0, 54) =~= all_view);
    let ghost base = targets_view(kept@);
    let mut i: usize = 0;
    while i < config.custom_targets.len()
        invariant
            i <= config.custom_targets@.len(),
            base == kept_builtins(*config, builtin_targets(drive@)),
            targets_view(kept@) == merge_customs(base, config.custom_targets@.subrange(0, i as int)),
        decreases config.custom_targets@.len() - i,
    {
        let c = &config.custom_targets[i];
        let ghost before = kept@;
        assert(config.custom_targets@.subrange(0, i + 1).drop_last() =~= config.custom_targets@.subrange(0, i as int));
        if c.enabled && c.level != SafetyLevel::Forbidden && !has_id_exec(&kept, c.id.as_str()) {
            let t = custom_to_target(c);
            kept.push(t);
            assert(targets_view(kept@) =~= targets_view(before).push(t@));
        }
        i = i + 1;
    }
    assert(config.custom_targets@.subrange(0, config.custom_targets@.len() as int) =~= config.custom_targets@);
    kept
}


/// The target id that a version-1 configuration's disabled path stands for.
pub open spec fn v1_path_id(p: Seq<char>) -> Option<Seq<char>> {
    if p == "%TEMP%"@ {
        Some("user_temp"@)
    } else if p == "%LOCALAPPDATA%\\Temp"@ {
        Some("local_temp"@)
    } else if p == "%WINDIR%\\Temp"@ {
        Some("sys_temp"@)
    } else if p == "%WINDIR%\\Prefetch"@ {
        Some("prefetch"@)
    } else if p == "%LOCALAPPDATA%\\Google\\Chrome\\User Data\\Default\\Code Cache"@ {
        Some("chrome_code_cache"@)
    } else if p == "%LOCALAPPDATA%\\Google\\Chrome\\User Data\\Default\\Cache"@ {
        Some("chrome_cache"@)
    } else if p == "%APPDATA%\\Mozilla\\Firefox\\Profiles"@ {
        Some("firefox_cache"@)
    } else if p == "%WINDIR%\\SoftwareDistribution\\Download"@ {
        Some("wu_download"@)
    } else if p == "%LOCALAPPDATA%\\Microsoft\\Windows\\INetCache"@ {
        Some("inet_cache"@)
    } else {
        None
    }
}

fn v1_path_id_exec(p: &str) -> (r: Option<&'static str>)
    ensures
        r matches Some(id) ==> v1_path_id(p@) == Some(id@),
        r is None ==> v1_path_id(p@) is None,
{
    let c = chars_of(p);
    if same(&c, &chars_of("%TEMP%")) {
        Some("user_temp")
    } else if same(&c, &chars_of("%LOCALAPPDATA%\\Temp")) {
        Some("local_temp")
    } else if same(&c, &chars_of("%WINDIR%\\Temp")) {
        Some("sys_temp")
    } else if same(&c, &chars_of("%WINDIR%\\Prefetch")) {
        Some("prefetch")
    } else if same(&c, &chars_of("%LOCALAPPDATA%\\Google\\Chrome\\User Data\\Default\\Code Cache")) {
        Some("chrome_code_cache")
    } else if same(&c, &chars_of("%LOCALAPPDATA%\\Google\\Chrome\\User Data\\Default\\Cache")) {
        Some("chrome_cache")
    } else if same(&c, &chars_of("%APPDATA%\\Mozilla\\Firefox\\Profiles")) {
        Some("firefox_cache")
    } else if same(&c, &chars_of("%WINDIR%\\SoftwareDistribution\\Download")) {
        Some("wu_download")
    } else if same(&c, &chars_of("%LOCALAPPDATA%\\Microsoft\\Windows\\INetCache")) {
        Some("inet_cache")
    } else {
        None
    }
}

/// The disabled ids after moving the version-1 disabled paths `olds` over, in order: each
/// known path adds its id unless that id is already present.
pub open spec fn migrate_ids(ids: Seq<Seq<char>>, olds: Seq<Seq<char>>) -> Seq<Seq<char>>
    decreases olds.len(),
{
    if olds.len() == 0 {
        ids
    } else {
        let acc = migrate_ids(ids, olds.drop_last());
        match v1_path_id(olds.last()) {
            Some(id) => if acc.contains(id) {
                acc
            } else {
                acc.push(id)
            },
            None => acc,
        }
    }
}

/// Version-1 to version-2 migration: disabled paths become disabled target ids (known
/// paths only, no duplicates), the path list is cleared and the version becomes 2.
pub fn migrate_v1_to_v2(config: PonyConfig) -> (r: PonyConfig)
    ensures
        r.version == Some(2u32),
        r.disabled_target_ids.deep_view() == migrate_ids(
            config.disabled_target_ids.deep_view(),
            config.disabled_targets.deep_view(),
        ),
        r.disabled_targets@.len() == 0,
        r.custom_exclude_paths == config.custom_exclude_paths,
        r.per_target_config == config.per_target_config,
        r.custom_targets == config.custom_targets,
        r.disk_scan == config.disk_scan,
{
    let mut config = config;
    let ghost orig = config;
    let ghost start_ids = config.disabled_target_ids.deep_view();
    let mut olds: Vec<String> = Vec::new();
    std::mem::swap(&mut olds, &mut config.disabled_targets);
    let mut i: usize = 0;
    while i < olds.len()
        invariant
            i <= olds@.len(),
            config.disabled_target_ids.deep_view() == migrate_ids(
                start_ids,
                olds.deep_view().subrange(0, i as int),
            ),
            olds == orig.disabled_targets,
            start_ids == orig.disabled_target_ids.deep_view(),
            config.disabled_targets@.len() == 0,
            config.custom_exclude_paths == orig.custom_exclude_paths,
            config.per_target_config == orig.per_target_config,
            config.custom_targets == orig.custom_targets,
            config.disk_scan == orig.disk_scan,
        decreases olds@.len() - i,
    {
        assert(olds.deep_view().subrange(0, i + 1).drop_last() =~= olds.deep_view().subrange(
            0,
            i as int,
        ));
        assert(olds.deep_view().subrange(0, i + 1).last() == olds@[i as int]@);
        match v1_path_id_exec(olds[i].as_str()) {
            Some(id) => {
                if !contains_string(&config.disabled_target_ids, id) {
                    let ghost before = config.disabled_target_ids.deep_view();
                    config.disabled_target_ids.push(id.to_owned());
                    assert(config.disabled_target_ids.deep_view() =~= before.push(id@));
                }
            },
            None => {},
        }
        i = i + 1;
    }
    assert(olds.deep_view().subrange(0, olds@.len() as int) =~= olds.deep_view());
    config.version = Some(2);
    config
}

/// Index of the first element of `ids` equal to `x`.
fn position_of(ids: &Vec<String>, x: &str) -> (r: Option<usize>)
    ensures
        r matches Some(k) ==> k < ids@.len() && ids.deep_view()[k as int] == x@ && forall|j: int|
            0 <= j < k ==> ids.deep_view()[j] != x@,
        r is None ==> !ids.deep_view().contains(x@),
{
    let target = chars_of(x);
    let mut i: usize = 0;
    while i < ids.len()
        invariant
            i <= ids@.len(),
            target@ == x@,
            forall|j: int| 0 <= j < i ==> ids.deep_view()[j] != x@,
        decreases ids@.len() - i,
    {
        if same(&chars_of(ids[i].as_str()), &target) {
            return Some(i);
        }
        i = i + 1;
    }
    assert(!ids.deep_view().contains(x@)) by {
        if ids.deep_view().contains(x@) {
            let k = choose|k: int| 0 <= k < ids.deep_view().len() && ids.deep_view()[k] == x@;
            assert(ids.deep_view()[k] == x@);
        }
    }
    None
}

/// `ids` with the first occurrence of `from` replaced by `to`.
pub open spec fn rename_first(ids: Seq<Seq<char>>, from: Seq<char>, to: Seq<char>) -> Seq<Seq<char>> {
    if ids.contains(from) {
        let k = choose|k: int| 0 <= k < ids.len() && ids[k] == from && forall|j: int| 0 <= j < k ==> ids[j] != from;
        ids.update(k, to)
    } else {
        ids
    }
}

/// The configuration version, version 1 when none is recorded.
pub open spec fn config_version(c: PonyConfig) -> u32 {
    match c.version {
        Some(v) => v,
        None => 1,
    }
}

/// The disabled ids after all migration steps.
pub open spec fn migrated_ids(c: PonyConfig) -> Seq<Seq<char>> {
    let v = config_version(c);
    let ids2 = if v < 2 {
        migrate_ids(c.disabled_target_ids.deep_view(), c.disabled_targets.deep_view())
    } else {
        c.disabled_target_ids.deep_view()
    };
    if v < 3 {
        rename_first(ids2, "app_cache"@, "windows_app_cache"@)
    } else {
        ids2
    }
}

/// Brings a loaded configuration up to version 3: version 1 (or no version) goes through
/// `migrate_v1_to_v2`, and below version 3 the target id `app_cache` is renamed to
/// `windows_app_cache` (first occurrence). A configuration at version 3 or later is
/// returned unchanged.
pub fn migrate_config(config: PonyConfig) -> (r: PonyConfig)
    ensures
        config_version(config) >= 3 ==> r == config,
        config_version(config) < 3 ==> r.version == Some(3u32),
        r.disabled_target_ids.deep_view() == migrated_ids(config),
        config_version(config) < 2 ==> r.disabled_targets@.len() == 0,
        config_version(config) >= 2 ==> r.disabled_targets == config.disabled_targets,
        r.custom_exclude_paths == config.custom_exclude_paths,
        r.per_target_config == config.per_target_config,
        r.custom_targets == config.custom_targets,
        r.disk_scan == config.disk_scan,
        config_version(r) >= 3,
{
    let ver: u32 = match config.version {
        Some(v) => v,
        None => 1,
    };
    if ver >= 3 {
        return config;
    }
    let mut config = if ver < 2 {
        migrate_v1_to_v2(config)
    } else {
        config
    };
    let ghost ids2 = config.disabled_target_ids.deep_view();
    match position_of(&config.disabled_target_ids, "app_cache") {
        Some(k) => {
            let ghost chosen = choose|j: int|
                0 <= j < ids2.len() && ids2[j] == "app_cache"@ && forall|m: int|
                    0 <= m < j ==> ids2[m] != "app_cache"@;
            assert(ids2.contains("app_cache"@)) by {
                assert(ids2[k as int] == "app_cache"@);
            }
            assert(chosen == k as int) by {
                if chosen < k as int {
                } else if chosen > k as int {
                }
            }
            config.disabled_target_ids.set(k, "windows_app_cache".to_owned());
            assert(config.disabled_target_ids.deep_view() =~= ids2.update(
                k as int,
                "windows_app_cache"@,
            ));
        },
        None => {},
    }
    config.version = Some(3);
    config
}

/// Joins a directory and a name with a backslash, unless the directory is empty or
/// already ends with a separator.
pub open spec fn join_spec(base: Seq<char>, name: Seq<char>) -> Seq<char> {
    if base.len() == 0 || base.last() == '\\' || base.last() == '/' {
        base + name
    } else {
        base + "\\"@ + name
    }
}

pub(crate) fn join_path(base: &[char], name: &str) -> (r: Vec<char>)
    ensures
        r@ == join_spec(base@, name@),
{
    let mut v: Vec<char> = Vec::new();
    crate::text::push_all(&mut v, base);
    if !(base.len() == 0 || base[base.len() - 1] == '\\' || base[base.len() - 1] == '/') {
        v.push('\\');
        assert(v@ =~= base@ + "\\"@) by {
            reveal_strlit("\\");
        }
    }
    push_str(&mut v, name);
    v
}

/// `name` appended to directory `base` (see `join_spec`).
pub fn join_dir(base: &str, name: &str) -> (r: String)
    ensures
        r@ == join_spec(base@, name@),
{
    let b = chars_of(base);
    let r = join_path(&b, name);
    string_of(&r)
}

/// The directory holding the application's data: `LOCALAPPDATA`, else
/// `USERPROFILE\AppData\Local`, else `C:\Users\Default\AppData\Local`, then `PonyClean`.
pub open spec fn config_dir_spec(env: EnvView) -> Seq<char> {
    let local = match env_lookup(env, "LOCALAPPDATA"@) {
        Some(v) => v,
        None => match env_lookup(env, "USERPROFILE"@) {
            Some(h) => h + "\\AppData\\Local"@,
            None => "C:\\Users\\Default"@ + "\\AppData\\Local"@,
        },
    };
    join_spec(local, "PonyClean"@)
}

/// The application's data directory (configuration file and clean log).
pub fn config_dir(env: &EnvVars) -> (r: String)
    ensures
        r@ == config_dir_spec(env@),
{
    let local: Vec<char> = match env.get(&chars_of("LOCALAPPDATA")) {
        Some(v) => v,
        None => {
            let mut home = match env.get(&chars_of("USERPROFILE")) {
                Some(h) => h,
                None => chars_of("C:\\Users\\Default"),
            };
            push_str(&mut home, "\\AppData\\Local");
            home
        },
    };
    let r = join_path(&local, "PonyClean");
    string_of(&r)
}

/// A readiness message of the cleaner module.
pub fn placeholder() -> (s: &'static str)
    ensures
        s@ == "cleaner module ready"@,
{
    "cleaner module ready"
}

proof fn lemma_kept_builtins(cfg: PonyConfig, ts: Seq<TargetView>)
    ensures
        forall|i: int|
            0 <= i < kept_builtins(cfg, ts).len() ==> builtin_kept(cfg, #[trigger] kept_builtins(cfg, ts)[i])
                && ts.contains(kept_builtins(cfg, ts)[i]),
    decreases ts.len(),
{
    if ts.len() > 0 {
        lemma_kept_builtins(cfg, ts.drop_last());
        let rest = kept_builtins(cfg, ts.drop_last());
        assert forall|i: int| 0 <= i < kept_builtins(cfg, ts).len() implies builtin_kept(
            cfg,
            #[trigger] kept_builtins(cfg, ts)[i],
        ) && ts.contains(kept_builtins(cfg, ts)[i]) by {
            if i < rest.len() {
                assert(kept_builtins(cfg, ts)[i] == rest[i]);
                let j = choose|j: int| 0 <= j < ts.drop_last().len() && ts.drop_last()[j] == rest[i];
                assert(ts[j] == rest[i]);
            } else {
                assert(ts[ts.len() - 1] == ts.last());
            }
        }
    }
}

/// A custom target that was added at position `i` of `r`: it comes from an enabled,
/// non-forbidden custom target of `cs`, and no earlier target has its id.
pub open spec fn added_custom(r: Seq<TargetView>, i: int, cs: Seq<CustomTarget>) -> bool {
    (exists|k: int|
        0 <= k < cs.len() && r[i] == #[trigger] custom_target_spec(cs[k]) && cs[k].enabled
            && cs[k].level != SafetyLevel::Forbidden) && forall|j: int| 0 <= j < i ==> r[j].id != r[i].id
}

proof fn lemma_merge_customs(acc: Seq<TargetView>, cs: Seq<CustomTarget>)
    ensures
        merge_customs(acc, cs).len() >= acc.len(),
        merge_customs(acc, cs).subrange(0, acc.len() as int) == acc,
        forall|i: int|
            acc.len() <= i < merge_customs(acc, cs).len() ==> #[trigger] added_custom(
                merge_customs(acc, cs),
                i,
                cs,
            ),
    decreases cs.len(),
{
    if cs.len() > 0 {
        let prev = merge_customs(acc, cs.drop_last());
        lemma_merge_customs(acc, cs.drop_last());
        let c = cs.last();
        let r = merge_customs(acc, cs);
        assert forall|i: int| acc.len() <= i < prev.len() implies #[trigger] added_custom(prev, i, cs) by {
            assert(added_custom(prev, i, cs.drop_last()));
            let k = choose|k: int|
                0 <= k < cs.drop_last().len() && prev[i] == #[trigger] custom_target_spec(cs.drop_last()[k])
                    && cs.drop_last()[k].enabled && cs.drop_last()[k].level != SafetyLevel::Forbidden;
            assert(cs[k] == cs.drop_last()[k]);
        }
        if !c.enabled || c.level == SafetyLevel::Forbidden || has_id(prev, c.id@) {
            assert(r == prev);
        } else {
            assert(r == prev.push(custom_target_spec(c)));
            assert(r.subrange(0, acc.len() as int) =~= prev.subrange(0, acc.len() as int));
            assert forall|i: int| acc.len() <= i < r.len() implies #[trigger] added_custom(r, i, cs) by {
                if i < prev.len() {
                    assert(added_custom(prev, i, cs));
                    assert(r[i] == prev[i]);
                    assert forall|j: int| 0 <= j < i implies r[j].id != r[i].id by {
                        assert(r[j] == prev[j]);
                    }
                } else {
                    assert(r[i] == custom_target_spec(cs[cs.len() - 1]));
                    assert forall|j: int| 0 <= j < i implies r[j].id != r[i].id by {
                        assert(r[j] == prev[j]);
                        if prev[j].id == c.id@ {
                            assert(has_id(prev, c.id@));
                        }
                    }
                }
            }
        }
    }
}

/// The law of target filtering: the kept built-in targets come first, in order, and none
/// of them is disabled (by id or by its per-target override); every target after them is
/// an enabled, non-forbidden custom target whose id no earlier target has (so a built-in
/// target wins an id conflict, and a custom id is listed once).
pub proof fn law_filtered_targets(cfg: PonyConfig, drive: Seq<char>)
    ensures
        ({
            let kb = kept_builtins(cfg, builtin_targets(drive));
            let r = filtered_spec(cfg, drive);
            &&& r.subrange(0, kb.len() as int) == kb
            &&& forall|i: int|
                0 <= i < kb.len() ==> builtin_kept(cfg, #[trigger] r[i]) && builtin_targets(drive).contains(
                    r[i],
                )
            &&& forall|i: int| kb.len() <= i < r.len() ==> #[trigger] added_custom(r, i, cfg.custom_targets@)
        }),
{
    let kb = kept_builtins(cfg, builtin_targets(drive));
    lemma_kept_builtins(cfg, builtin_targets(drive));
    lemma_merge_customs(kb, cfg.custom_targets@);
    let r = filtered_spec(cfg, drive);
    assert forall|i: int| 0 <= i < kb.len() implies builtin_kept(cfg, #[trigger] r[i])
        && builtin_targets(drive).contains(r[i]) by {
        assert(r.subrange(0, kb.len() as int)[i] == r[i]);
        assert(builtin_kept(cfg, kb[i]));
    }
}

proof fn lemma_kept_builtins_complete(cfg: PonyConfig, ts: Seq<TargetView>, t: TargetView)
    requires
        ts.contains(t),
        builtin_kept(cfg, t),
    ensures
        kept_builtins(cfg, ts).contains(t),
    decreases ts.len(),
{
    if ts.last() == t {
        let k = kept_builtins(cfg, ts);
        assert(k[k.len() - 1] == t);
    } else {
        let j = choose|j: int| 0 <= j < ts.len() && ts[j] == t;
        assert(ts.drop_last()[j] == t);
        lemma_kept_builtins_complete(cfg, ts.drop_last(), t);
        let rest = kept_builtins(cfg, ts.drop_last());
        let i = choose|i: int| 0 <= i < rest.len() && rest[i] == t;
        assert(kept_builtins(cfg, ts)[i] == t);
    }
}

/// Law of the per-target switches: among the scan targets a configuration gives, the
/// built-in ones (which come first) are exactly the built-in targets whose id is not
/// listed as disabled and whose per-target setting does not switch them off. In
/// particular, with one setting per id, a built-in target whose setting says
/// `enabled: Some(false)` is not scanned.
pub proof fn law_per_target_switch(cfg: PonyConfig, drive: Seq<char>)
    ensures
        ({
            let kb = kept_builtins(cfg, builtin_targets(drive));
            let r = filtered_spec(cfg, drive);
            let per = cfg.per_target_config@;
            &&& forall|i: int|
                0 <= i < kb.len() ==> !cfg.disabled_target_ids.deep_view().contains(#[trigger] r[i].id)
                    && target_enabled(per, r[i].id)
            &&& distinct_override_ids(per) ==> forall|i: int, j: int|
                0 <= i < kb.len() && 0 <= j < per.len() && (#[trigger] per[j]).0@ == (#[trigger] r[i]).id
                    ==> per[j].1.enabled != Some(false)
            &&& forall|t: TargetView|
                builtin_targets(drive).contains(t) && !cfg.disabled_target_ids.deep_view().contains(t.id)
                    && target_enabled(per, t.id) ==> #[trigger] r.subrange(0, kb.len() as int).contains(t)
        }),
{
    let kb = kept_builtins(cfg, builtin_targets(drive));
    let r = filtered_spec(cfg, drive);
    let per = cfg.per_target_config@;
    law_filtered_targets(cfg, drive);
    if distinct_override_ids(per) {
        assert forall|i: int, j: int|
            0 <= i < kb.len() && 0 <= j < per.len() && (#[trigger] per[j]).0@ == (#[trigger] r[i]).id
                implies per[j].1.enabled != Some(false) by {
            law_override_is_map_lookup(per, r[i].id);
            assert(builtin_kept(cfg, r[i]));
        }
    }
    assert forall|t: TargetView|
        builtin_targets(drive).contains(t) && !cfg.disabled_target_ids.deep_view().contains(t.id)
            && target_enabled(per, t.id) implies #[trigger] r.subrange(0, kb.len() as int).contains(t) by {
        lemma_kept_builtins_complete(cfg, builtin_targets(drive), t);
    }
}

/// A hexadecimal digit (upper case).
pub open spec fn hex_digit(d: int) -> char {
    if d < 10 {
        crate::cleanlog::digit_char(d)
    } else if d == 10 {
        'A'
    } else if d == 11 {
        'B'
    } else if d == 12 {
        'C'
    } else if d == 13 {
        'D'
    } else if d == 14 {
        'E'
    } else {
        'F'
    }
}

/// The last `n` hexadecimal digits of `x`, zero-padded.
pub open spec fn hex_fixed(x: nat, n: nat) -> Seq<char>
    decreases n,
{
    if n == 0 {
        Seq::empty()
    } else {
        hex_fixed(x / 16, (n - 1) as nat).push(hex_digit((x % 16) as int))
    }
}

fn hex_digit_exec(d: u32) -> (c: char)
    requires
        d < 16,
    ensures
        c == hex_digit(d as int),
{
    match d {
        0 => '0',
        1 => '1',
        2 => '2',
        3 => '3',
        4 => '4',
        5 => '5',
        6 => '6',
        7 => '7',
        8 => '8',
        9 => '9',
        10 => 'A',
        11 => 'B',
        12 => 'C',
        13 => 'D',
        14 => 'E',
        _ => 'F',
    }
}

fn hex_fixed_exec(x: u32, n: u32) -> (r: Vec<char>)
    ensures
        r@ == hex_fixed(x as nat, n as nat),
    decreases n,
{
    if n == 0 {
        Vec::new()
    } else {
        let mut r = hex_fixed_exec(x / 16, n - 1);
        r.push(hex_digit_exec(x % 16));
        r
    }
}

/// `HRESULT` of an access violation (`E_ACCESSDENIED`).
pub const E_ACCESSDENIED_CODE: u32 = 0x8007_0005;
/// `HRESULT` of an unspecified failure (`E_FAIL`).
pub const E_FAIL_CODE: u32 = 0x8000_4005;

/// The advice shown when emptying the recycle bin failed with `code`.
pub open spec fn recycle_hint(code: u32) -> Seq<char> {
    if code == E_ACCESSDENIED_CODE {
        "回收站中有文件正被其他程序占用（如云盘、杀毒软件或正在运行的应用），或当前权限不足，请关闭占用程序后重试"@
    } else if code == E_FAIL_CODE {
        "回收站中部分文件无法删除，可能是系统文件被保护或目录结构异常"@
    } else {
        "清空回收站失败，请稍后重试或检查回收站目录"@
    }
}

/// The error of a failed recycle bin emptying: the `HRESULT` as eight hexadecimal
/// digits, the system's message and the advice for that code.
pub fn recycle_bin_error(code: u32, message: &str) -> (r: String)
    ensures
        r@ == "清空回收站失败 (0x"@ + hex_fixed(code as nat, 8) + "): "@ + message@ + "。"@ + recycle_hint(code),
{
    let mut v = chars_of("清空回收站失败 (0x");
    let hex = hex_fixed_exec(code, 8);
    crate::text::push_all(&mut v, &hex);
    push_str(&mut v, "): ");
    push_str(&mut v, message);
    push_str(&mut v, "。");
    let hint = if code == E_ACCESSDENIED_CODE {
        "回收站中有文件正被其他程序占用（如云盘、杀毒软件或正在运行的应用），或当前权限不足，请关闭占用程序后重试"
    } else if code == E_FAIL_CODE {
        "回收站中部分文件无法删除，可能是系统文件被保护或目录结构异常"
    } else {
        "清空回收站失败，请稍后重试或检查回收站目录"
    };
    push_str(&mut v, hint);
    string_of(&v)
}

} // verus!
