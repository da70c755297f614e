//! The decisions of a cleaning scan. Walking directories, reading metadata and the
//! worker threads belong to the caller; the functions here decide which files become
//! clean items, when batches and progress events go out, how resolved targets are split
//! among workers and how a scan is closed.

use vstd::prelude::*;
use crate::cleaner::{
    Category, CleanItem, SafetyLevel, ScanEvent, ScanTarget, ScanWarning, BATCH_SIZE,
    LOG_EXPIRY_DAYS, MAX_SCAN_ITEMS, SCAN_PARALLELISM,
};
use crate::cleaner::{join_dir, join_spec, MAX_UWP_PACKAGES};
use crate::paths::{
    env_path_matches, expand_env, expand_env_spec, is_path_protected_given,
    path_has_no_parent, protected_by_text, surely_has_parent, verify_env_path_inner, EnvVars, EnvView,
};
use crate::text::{
    chars_of, contains, ends_with, has_prefix, has_suffix, has_sub, same, starts_with,
    strip_prefix_any, strip_suffix_any, trim_end_any, trim_start_any,
};

verus! {

/// Directory names skipped below walk depth 5 of a cleaning scan.
pub open spec fn deep_skip_names() -> Seq<Seq<char>> {
    seq!["node_modules"@, ".git"@, "__pycache__"@, ".svn"@]
}

/// Whether the walk of a cleaning target drops an entry named `name` found while reading
/// a directory at depth `depth` (`None` for the root).
pub fn deep_skip(depth: Option<usize>, name: &str) -> (b: bool)
    ensures
        b == ((match depth {
            Some(d) => d,
            None => 0,
        }) > 5 && deep_skip_names().contains(name@)),
{
    let d = match depth {
        Some(d) => d,
        None => 0,
    };
    if d <= 5 {
        return false;
    }
    let n = chars_of(name);
    let list = ["node_modules", ".git", "__pycache__", ".svn"];
    proof {
        assert(list@.map_values(|s: &str| s@) =~= deep_skip_names());
    }
    let mut i: usize = 0;
    while i < list.len()
        invariant
            i <= list@.len(),
            n@ == name@,
            list@.map_values(|s: &str| s@) == deep_skip_names(),
            d > 5,
            d == (match depth {
                Some(x) => x,
                None => 0,
            }),
            forall|j: int| 0 <= j < i ==> deep_skip_names()[j] != name@,
        decreases list@.len() - i,
    {
        assert(deep_skip_names()[i as int] == list@[i as int]@);
        if same(&chars_of(list[i]), &n) {
            assert(deep_skip_names()[i as int] == name@);
            assert(i < deep_skip_names().len());
            assert(deep_skip_names().contains(name@));
            return true;
        }
        i = i + 1;
    }
    assert(!deep_skip_names().contains(name@)) by {
        if deep_skip_names().contains(name@) {
            let k = choose|k: int| 0 <= k < deep_skip_names().len() && deep_skip_names()[k] == name@;
            assert(deep_skip_names()[k] == name@);
        }
    }
    false
}

/// The text a glob pattern matches with, `*` stripped from both ends.
pub open spec fn glob_inner(p: Seq<char>) -> Seq<char> {
    trim_end_any(trim_start_any(p, seq!['*']), seq!['*'])
}

/// Glob matching of a file name: `*x*` contains `x`, `*x` ends with `x`, `x*` starts
/// with `x`, anything else is compared exactly.
pub open spec fn glob_matches(name: Seq<char>, p: Seq<char>) -> bool {
    let lead = p.len() > 0 && p[0] == '*';
    let trail = p.len() > 0 && p.last() == '*';
    let inner = glob_inner(p);
    if lead && trail {
        contains(name, inner)
    } else if lead {
        ends_with(name, inner)
    } else if trail {
        starts_with(name, inner)
    } else {
        name == p
    }
}

/// Whether a file name matches one glob pattern.
pub fn glob_match(name: &str, pattern: &str) -> (b: bool)
    ensures
        b == glob_matches(name@, pattern@),
{
    let n = chars_of(name);
    let p = chars_of(pattern);
    let lead = p.len() > 0 && p[0] == '*';
    let trail = p.len() > 0 && p[p.len() - 1] == '*';
    let star = vec!['*'];
    assert(star@ =~= seq!['*']);
    let inner = strip_suffix_any(&strip_prefix_any(&p, &star), &star);
    if lead && trail {
        has_sub(&n, &inner)
    } else if lead {
        has_suffix(&n, &inner)
    } else if trail {
        has_prefix(&n, &inner)
    } else {
        same(&n, &p)
    }
}

/// A file passes the include filter when there is none or one of its patterns matches.
pub open spec fn passes_globs(name: Seq<char>, globs: Option<Seq<Seq<char>>>) -> bool {
    globs is None || exists|i: int|
        0 <= i < globs->0.len() && #[trigger] glob_matches(name, globs->0[i])
}

fn passes_globs_exec(name: &str, globs: &Option<Vec<String>>) -> (b: bool)
    ensures
        b == passes_globs(name@, crate::cleaner::opt_strings_view(*globs)),
{
    match globs {
        None => true,
        Some(g) => {
            assert(crate::cleaner::opt_strings_view(*globs) == Some(g.deep_view()));
            let mut i: usize = 0;
            while i < g.len()
                invariant
                    i <= g@.len(),
                    g.deep_view().len() == g@.len(),
                    crate::cleaner::opt_strings_view(*globs) == Some(g.deep_view()),
                    forall|j: int| 0 <= j < i ==> !glob_matches(name@, #[trigger] g.deep_view()[j]),
                decreases g@.len() - i,
            {
                assert(g.deep_view()[i as int] == g@[i as int]@);
                if glob_match(name, g[i].as_str()) {
                    assert(glob_matches(name@, g.deep_view()[i as int]));
                    let ghost o = crate::cleaner::opt_strings_view(*globs);
                    assert(glob_matches(name@, o->0[i as int]));
                    return true;
                }
                i = i + 1;
            }
            false
        },
    }
}

/// Log-like targets keep only files older than the log expiry: the `Logs` category and
/// the targets `downloads_old`, `etl_logs` and `app_logs`.
pub open spec fn needs_mtime(t: ScanTarget) -> bool {
    t.category == Category::Logs || t.id@ == "downloads_old"@ || t.id@ == "etl_logs"@
        || t.id@ == "app_logs"@
}

/// Seconds in the log expiry period.
pub open spec fn expiry_secs() -> int {
    LOG_EXPIRY_DAYS * 86400
}

/// The modification-time cutoff of a target at time `now` (seconds since the epoch):
/// files modified after it are kept out of log-like targets.
pub open spec fn cutoff_spec(t: ScanTarget, now: i64) -> Option<i64> {
    if needs_mtime(t) {
        Some((now - expiry_secs()) as i64)
    } else {
        None
    }
}

/// The modification-time cutoff of a target at time `now`.
pub fn mtime_cutoff(t: &ScanTarget, now: i64) -> (r: Option<i64>)
    requires
        now >= i64::MIN + expiry_secs(),
    ensures
        r == cutoff_spec(*t, now),
{
    let id = chars_of(t.id.as_str());
    let needs = t.category == Category::Logs || same(&id, &chars_of("downloads_old")) || same(
        &id,
        &chars_of("etl_logs"),
    ) || same(&id, &chars_of("app_logs"));
    if needs {
        Some(now - LOG_EXPIRY_DAYS * 86400)
    } else {
        None
    }
}

/// What a directory walk reports of one entry.
pub struct EntryFacts {
    /// The entry is a regular file.
    pub is_file: bool,
    /// Its size, `None` when its metadata could not be read.
    pub size: Option<u64>,
    /// Its modification time in seconds since the epoch, when known.
    pub mtime_secs: Option<i64>,
    /// Its file name.
    pub file_name: String,
}

/// The verdict on one entry of a target.
pub enum Consider {
    /// Not a file, or no metadata.
    Ignore,
    /// Below the target's minimum size (counted as skipped).
    TooSmall,
    /// Too recent for a log-like target, or no include pattern matches.
    Filtered,
    /// The target reached its item cap: send this warning and stop the target.
    TargetFull(ScanEvent),
    /// A candidate: count it globally, then `accept` it.
    Candidate,
}

/// The verdict on an entry, given the target's cutoff and its count so far (`Ignore`
/// and the filters come first, the cap last, as in the walk).
pub open spec fn consider_spec(
    t: ScanTarget,
    cutoff: Option<i64>,
    target_count: u64,
    is_file: bool,
    size: Option<u64>,
    mtime: Option<i64>,
    name: Seq<char>,
) -> int {
    if !is_file || size is None {
        0
    } else if size->0 < t.min_size {
        1
    } else if cutoff is Some && mtime is Some && mtime->0 > cutoff->0 {
        2
    } else if !passes_globs(name, crate::cleaner::opt_strings_view(t.glob_include)) {
        2
    } else if target_count >= t.max_items_per_target {
        3
    } else {
        4
    }
}

/// Law of the age filter: for a target with a cutoff `c`, a file that is large enough,
/// passes the include patterns and fits under the target's cap is a candidate exactly
/// when it was last modified at or before `c`; a file modified after `c` is filtered out.
/// For a target of the `Logs` category the cutoff at time `now` is `now` minus 90 days
/// (7 776 000 seconds), so old logs are offered and recent ones kept.
pub proof fn law_age_filter(
    t: ScanTarget,
    now: i64,
    c: i64,
    target_count: u64,
    size: u64,
    m: i64,
    name: Seq<char>,
)
    requires
        size >= t.min_size,
        passes_globs(name, crate::cleaner::opt_strings_view(t.glob_include)),
        target_count < t.max_items_per_target,
    ensures
        m <= c ==> consider_spec(t, Some(c), target_count, true, Some(size), Some(m), name)
            == consider_code(Consider::Candidate),
        m > c ==> consider_spec(t, Some(c), target_count, true, Some(size), Some(m), name)
            == consider_code(Consider::Filtered),
        t.category == Category::Logs && now >= i64::MIN + 7776000 ==> cutoff_spec(t, now)
            == Some((now - 7776000) as i64),
        !needs_mtime(t) ==> cutoff_spec(t, now) is None,
{
}

/// Law of the verdicts on an entry, in the order the walk applies them: an entry that is
/// not a file or has no size is ignored; a file below the target's minimum size is too
/// small; a file modified after the cutoff, or matching none of the include patterns, is
/// filtered; a file of a target that already holds its cap of items fills the target;
/// any other file is a candidate.
pub proof fn law_consider_verdicts(
    t: ScanTarget,
    cutoff: Option<i64>,
    count: u64,
    is_file: bool,
    size: Option<u64>,
    mtime: Option<i64>,
    name: Seq<char>,
)
    ensures
        ({
            let v = consider_spec(t, cutoff, count, is_file, size, mtime, name);
            let too_new = cutoff is Some && mtime is Some && mtime->0 > cutoff->0;
            let globs_ok = passes_globs(name, crate::cleaner::opt_strings_view(t.glob_include));
            &&& (!is_file || size is None) ==> v == consider_code(Consider::Ignore)
            &&& (is_file && size is Some && size->0 < t.min_size) ==> v == consider_code(
                Consider::TooSmall,
            )
            &&& (is_file && size is Some && size->0 >= t.min_size && (too_new || !globs_ok))
                ==> v == consider_code(Consider::Filtered)
            &&& (is_file && size is Some && size->0 >= t.min_size && !too_new && globs_ok
                && count >= t.max_items_per_target) ==> v == 3
            &&& (is_file && size is Some && size->0 >= t.min_size && !too_new && globs_ok
                && count < t.max_items_per_target) ==> v == consider_code(Consider::Candidate)
        }),
{
}

/// The number of a verdict, in the order of `Consider`'s variants.
pub open spec fn consider_code(c: Consider) -> int {
    match c {
        Consider::Ignore => 0,
        Consider::TooSmall => 1,
        Consider::Filtered => 2,
        Consider::TargetFull(_) => 3,
        Consider::Candidate => 4,
    }
}

/// The view of a clean item.
pub open spec fn item_view(i: CleanItem) -> (Seq<char>, u64, SafetyLevel, Seq<char>) {
    (i.path@, i.size_bytes, i.level, i.category@)
}

/// The state of one scan worker: its pending batch, its totals, and the target it walks.
pub struct WorkerView {
    pub batch: Seq<(Seq<char>, u64, SafetyLevel, Seq<char>)>,
    pub total_bytes: u64,
    pub skipped_small: u64,
    pub target_count: u64,
    pub cutoff: Option<i64>,
}

/// One scan worker. Targets are walked one after the other; the batch carries over from
/// one target to the next.
pub struct WorkerScan {
    batch: Vec<CleanItem>,
    total_bytes: u64,
    skipped_small: u64,
    target_count: u64,
    cutoff: Option<i64>,
}

impl View for WorkerScan {
    type V = WorkerView;

    closed spec fn view(&self) -> WorkerView {
        WorkerView {
            batch: self.batch@.map_values(|i: CleanItem| item_view(i)),
            total_bytes: self.total_bytes,
            skipped_small: self.skipped_small,
            target_count: self.target_count,
            cutoff: self.cutoff,
        }
    }
}

/// What became of a counted candidate.
pub enum Accepted {
    /// The global item limit was passed: the scan stops.
    GlobalLimit,
    /// The item was added; send `flush` (a full batch) and `progress` when present.
    Added { flush: Option<ScanEvent>, progress: Option<ScanEvent> },
}

impl WorkerScan {
    /// A worker with an empty batch and zero totals.
    pub fn new() -> (w: Self)
        ensures
            w@.batch.len() == 0,
            w@.total_bytes == 0,
            w@.skipped_small == 0,
            w@.target_count == 0,
            w@.cutoff is None,
    {
        let w = WorkerScan { batch: Vec::new(), total_bytes: 0, skipped_small: 0, target_count: 0, cutoff: None };
        assert(w@.batch =~= Seq::<(Seq<char>, u64, SafetyLevel, Seq<char>)>::empty());
        w
    }

    /// Starts walking target `t` at time `now`: its count restarts at zero and its
    /// modification-time cutoff is set.
    pub fn begin_target(&mut self, t: &ScanTarget, now: i64)
        requires
            now >= i64::MIN + expiry_secs(),
        ensures
            final(self)@ == (WorkerView { target_count: 0, cutoff: cutoff_spec(*t, now), ..old(self)@ }),
    {
        self.target_count = 0;
        self.cutoff = mtime_cutoff(t, now);
    }

    /// Starts walking target `t` now, by the system clock (a reading past the `i64`
    /// range counts as `i64::MAX`).
    pub fn begin_target_now(&mut self, t: &ScanTarget)
        ensures
            exists|now: i64|
                now >= 0 && final(self)@ == (WorkerView {
                    target_count: 0,
                    cutoff: #[trigger] cutoff_spec(*t, now),
                    ..old(self)@
                }),
    {
        let secs = crate::cleanlog::seconds_since_epoch();
        let now: i64 = if secs <= 9_223_372_036_854_775_807u64 {
            secs as i64
        } else {
            i64::MAX
        };
        self.begin_target(t, now);
    }

    /// Judges one entry of target `t`. A file below the minimum size is counted as
    /// skipped; nothing else changes.
    pub fn consider(&mut self, t: &ScanTarget, entry: &EntryFacts) -> (r: Consider)
        requires
            old(self)@.skipped_small < u64::MAX,
        ensures
            consider_code(r) == consider_spec(
                *t,
                old(self)@.cutoff,
                old(self)@.target_count,
                entry.is_file,
                entry.size,
                entry.mtime_secs,
                entry.file_name@,
            ),
            final(self)@ == (if consider_code(r) == 1 {
                WorkerView { skipped_small: (old(self)@.skipped_small + 1) as u64, ..old(self)@ }
            } else {
                old(self)@
            }),
            r matches Consider::TargetFull(ev) ==> (ev matches ScanEvent::Warning(
                ScanWarning::MaxItemsReached { target_id, items },
            ) && target_id@ == t.id@ && items == old(self)@.target_count),
    {
        if !entry.is_file {
            return Consider::Ignore;
        }
        let size = match entry.size {
            Some(s) => s,
            None => {
                return Consider::Ignore;
            },
        };
        if size < t.min_size {
            self.skipped_small = self.skipped_small + 1;
            return Consider::TooSmall;
        }
        match (self.cutoff, entry.mtime_secs) {
            (Some(cutoff), Some(m)) => {
                if m > cutoff {
                    return Consider::Filtered;
                }
            },
            _ => {},
        }
        if !passes_globs_exec(entry.file_name.as_str(), &t.glob_include) {
            return Consider::Filtered;
        }
        if self.target_count >= t.max_items_per_target {
            return Consider::TargetFull(
                ScanEvent::Warning(
                    ScanWarning::MaxItemsReached { target_id: t.id.clone(), items: self.target_count },
                ),
            );
        }
        Consider::Candidate
    }

    /// Adds a candidate of target `t` found at `path` with `size` bytes; `n` is the global
    /// item count including it and `block_path` the directory being walked. Past
    /// `MAX_SCAN_ITEMS` nothing is added. Otherwise the item joins the batch, a batch
    /// that reaches `BATCH_SIZE` items is handed out, and every hundredth item overall
    /// reports progress.
    pub fn accept(
        &mut self,
        t: &ScanTarget,
        n: u64,
        path: String,
        size: u64,
        block_path: &str,
    ) -> (r: Accepted)
        requires
            old(self)@.target_count < t.max_items_per_target,
            old(self)@.total_bytes + size <= u64::MAX,
            old(self)@.batch.len() < BATCH_SIZE,
        ensures
            n > MAX_SCAN_ITEMS ==> r is GlobalLimit && final(self)@ == old(self)@,
            n <= MAX_SCAN_ITEMS ==> {
                let added = old(self)@.batch.push((path@, size, t.level, t.category.name_spec()));
                &&& r matches Accepted::Added { flush, progress }
                &&& final(self)@.total_bytes == old(self)@.total_bytes + size
                &&& final(self)@.target_count == old(self)@.target_count + 1
                &&& final(self)@.skipped_small == old(self)@.skipped_small
                &&& final(self)@.cutoff == old(self)@.cutoff
                &&& (added.len() >= BATCH_SIZE ==> final(self)@.batch.len() == 0 && (flush matches Some(
                    ScanEvent::ItemsFound { items, batch_complete },
                ) && !batch_complete && items@.map_values(|i: CleanItem| item_view(i)) == added))
                &&& (added.len() < BATCH_SIZE ==> final(self)@.batch == added && flush is None)
                &&& (n % 100 == 0 <==> progress is Some)
                &&& (progress matches Some(ev) ==> (ev matches ScanEvent::Progress { scanned, current }
                    && scanned == n && current@ == block_path@))
            },
            final(self)@.batch.len() < BATCH_SIZE,
    {
        if n > MAX_SCAN_ITEMS {
            return Accepted::GlobalLimit;
        }
        self.total_bytes = self.total_bytes + size;
        self.target_count = self.target_count + 1;
        let ghost before = self.batch@;
        let item = CleanItem {
            path,
            size_bytes: size,
            level: t.level,
            category: t.category.to_string(),
        };
        self.batch.push(item);
        assert(self.batch@.map_values(|i: CleanItem| item_view(i)) =~= before.map_values(
            |i: CleanItem| item_view(i),
        ).push(item_view(item)));
        let flush = if self.batch.len() >= BATCH_SIZE {
            let mut items: Vec<CleanItem> = Vec::new();
            std::mem::swap(&mut items, &mut self.batch);
            assert(self.batch@.map_values(|i: CleanItem| item_view(i)) =~= Seq::<
                (Seq<char>, u64, SafetyLevel, Seq<char>),
            >::empty());
            Some(ScanEvent::ItemsFound { items, batch_complete: false })
        } else {
            None
        };
        let progress = if n % 100 == 0 {
            Some(ScanEvent::Progress { scanned: n, current: block_path.to_owned() })
        } else {
            None
        };
        Accepted::Added { flush, progress }
    }

    /// Ends the worker: the last, partial batch (if any, marked complete), the bytes
    /// found and the files skipped as too small.
    pub fn finish(self) -> (r: (Option<ScanEvent>, u64, u64))
        ensures
            r.1 == self@.total_bytes,
            r.2 == self@.skipped_small,
            self@.batch.len() == 0 ==> r.0 is None,
            self@.batch.len() > 0 ==> (r.0 matches Some(ScanEvent::ItemsFound { items, batch_complete })
                && batch_complete && items@.map_values(|i: CleanItem| item_view(i)) == self@.batch),
    {
        let n = self.batch.len();
        let total = self.total_bytes;
        let skipped = self.skipped_small;
        let last = if n == 0 {
            None
        } else {
            Some(ScanEvent::ItemsFound { items: self.batch, batch_complete: true })
        };
        (last, total, skipped)
    }

    /// Bytes found so far.
    pub fn total_bytes(&self) -> (r: u64)
        ensures
            r == self@.total_bytes,
    {
        self.total_bytes
    }

    /// Files skipped as too small so far.
    pub fn skipped_small(&self) -> (r: u64)
        ensures
            r == self@.skipped_small,
    {
        self.skipped_small
    }

    /// Items taken from the current target so far.
    pub fn target_count(&self) -> (r: u64)
        ensures
            r == self@.target_count,
    {
        self.target_count
    }

    /// Items waiting in the batch.
    pub fn batch_len(&self) -> (r: usize)
        ensures
            r == self@.batch.len(),
    {
        self.batch.len()
    }
}

} // verus!

verus! {

/// Round-robin split of the resolved targets over the scan workers: worker `g` gets the
/// items at positions `g`, `g + k`, `g + 2k`, ... for `k` workers; workers without items
/// are dropped, so there are `min(n, k)` groups.
pub open spec fn group_spec<T>(items: Seq<T>, k: int) -> Seq<Seq<T>> {
    Seq::new(
        if items.len() < k { items.len() } else { k as nat },
        |g: int| Seq::new(((items.len() - g + k - 1) / k) as nat, |j: int| items[g + k * j]),
    )
}

/// Position `j` of group `g` of the split exists and holds item `g + k * j`.
pub open spec fn split_holds<T>(items: Seq<T>, k: int, g: int, j: int) -> bool {
    &&& 0 <= g < group_spec(items, k).len()
    &&& 0 <= j < group_spec(items, k)[g].len()
    &&& 0 <= g + k * j < items.len()
    &&& group_spec(items, k)[g][j] == items[g + k * j]
}

/// Law: the round-robin split loses and repeats nothing. Each item `g + k * j` (`g < k`)
/// is at position `j` of group `g`, and each position `j` of each group `g` holds the item
/// `g + k * j`.
pub proof fn law_split_is_partition<T>(items: Seq<T>, k: int)
    requires
        k > 0,
    ensures
        forall|g: int, j: int|
            0 <= g < k && 0 <= j && g + k * j < items.len() ==> #[trigger] split_holds(items, k, g, j),
        forall|g: int, j: int|
            0 <= g < group_spec(items, k).len() && 0 <= j < group_spec(items, k)[g].len()
                ==> #[trigger] split_holds(items, k, g, j),
{
    let n = items.len() as int;
    assert forall|g: int, j: int| 0 <= g < k && 0 <= j && g + k * j < items.len() implies #[trigger] split_holds(
        items,
        k,
        g,
        j,
    ) by {
        assert(g <= g + k * j) by (nonlinear_arith)
            requires
                k > 0,
                0 <= j,
        ;
        assert(j < (n - g + k - 1) / k) by (nonlinear_arith)
            requires
                k > 0,
                0 <= g < k,
                j >= 0,
                g + k * j < n,
        ;
        assert(g < group_spec(items, k).len());
        assert(group_spec(items, k)[g].len() == (n - g + k - 1) / k);
    }
    assert forall|g: int, j: int|
        0 <= g < group_spec(items, k).len() && 0 <= j < group_spec(items, k)[g].len() implies #[trigger] split_holds(
        items,
        k,
        g,
        j,
    ) by {
        assert(g < n);
        assert((n - g + k - 1) / k >= 0) by (nonlinear_arith)
            requires
                k > 0,
                g < n,
        ;
        assert(group_spec(items, k)[g].len() == (n - g + k - 1) / k);
        assert(g + k * j < n) by (nonlinear_arith)
            requires
                k > 0,
                0 <= g,
                0 <= j,
                j < (n - g + k - 1) / k,
        ;
        assert(0 <= g + k * j) by (nonlinear_arith)
            requires
                k > 0,
                0 <= g,
                0 <= j,
        ;
    }
}

/// Splits the resolved `(path, target index)` pairs over `SCAN_PARALLELISM` workers,
/// round robin, dropping empty groups.
pub fn split_groups(items: &Vec<(String, usize)>) -> (r: Vec<Vec<(String, usize)>>)
    ensures
        r@.len() == group_spec(items@, SCAN_PARALLELISM as int).len(),
        forall|g: int|
            0 <= g < r@.len() ==> (#[trigger] r@[g])@.len() == group_spec(
                items@,
                SCAN_PARALLELISM as int,
            )[g].len(),
        forall|g: int, j: int|
            0 <= g < r@.len() && 0 <= j < r@[g]@.len() ==> {
                let it = #[trigger] r@[g]@[j];
                let src = group_spec(items@, SCAN_PARALLELISM as int)[g][j];
                it.0@ == src.0@ && it.1 == src.1
            },
{
    let k: usize = SCAN_PARALLELISM;
    let n = items.len();
    let ngroups: usize = if n < k { n } else { k };
    let mut r: Vec<Vec<(String, usize)>> = Vec::new();
    let mut g: usize = 0;
    while g < ngroups
        invariant
            k == SCAN_PARALLELISM,
            n == items@.len(),
            ngroups == (if n < k { n } else { k }),
            g <= ngroups,
            r@.len() == g,
            forall|h: int|
                0 <= h < g ==> (#[trigger] r@[h])@.len() == (n - h + k - 1) / (k as int),
            forall|h: int, j: int|
                0 <= h < g && 0 <= j < r@[h]@.len() ==> {
                    let it = #[trigger] r@[h]@[j];
                    it.0@ == items@[h + k * j].0@ && it.1 == items@[h + k * j].1
                },
        decreases ngroups - g,
    {
        let mut group: Vec<(String, usize)> = Vec::new();
        let mut idx: usize = g;
        let mut j: usize = 0;
        let mut more: bool = true;
        while more
            invariant
                k == SCAN_PARALLELISM,
                n == items@.len(),
                g < k,
                g < n,
                more ==> idx == g + k * j && idx < n,
                !more ==> g + k * j >= n && j >= 1 && g + k * (j - 1) < n,
                group@.len() == j,
                forall|m: int|
                    0 <= m < j ==> {
                        let it = #[trigger] group@[m];
                        it.0@ == items@[g + k * m].0@ && it.1 == items@[g + k * m].1
                    },
            decreases (if more { n - idx } else { 0 }),
        {
            group.push((items[idx].0.clone(), items[idx].1));
            j = j + 1;
            if n - idx > k {
                idx = idx + k;
            } else {
                more = false;
            }
        }
        assert(j == (n - g + k - 1) / (k as int)) by (nonlinear_arith)
            requires
                g + k * j >= n,
                j >= 1,
                g + k * (j - 1) < n,
                g < n,
                k == 4,
        ;
        r.push(group);
        g = g + 1;
    }
    r
}

/// The events that close a scan: a warning when a worker panicked, then `Cancelled`
/// when any worker was cancelled, else a warning when the global limit was hit followed
/// by `Done` with the totals.
pub fn closing_events(
    panicked: bool,
    cancelled: bool,
    global_hit: bool,
    total_items: u64,
    total_bytes: u64,
    skipped_small: u64,
) -> (r: Vec<ScanEvent>)
    ensures
        r@.len() == (if panicked { 1int } else { 0 }) + (if cancelled {
            1int
        } else if global_hit {
            2
        } else {
            1
        }),
        panicked ==> (r@[0] matches ScanEvent::Warning(ScanWarning::PermissionDenied { target_id, path })
            && target_id@ == "scan"@ && path@ == "worker thread panicked"@),
        cancelled ==> r@.last() is Cancelled,
        !cancelled ==> (r@.last() matches ScanEvent::Done { total_items: a, total_bytes: b, skipped_small: c }
            && a == total_items && b == total_bytes && c == skipped_small),
        !cancelled && global_hit ==> (r@[r@.len() - 2] matches ScanEvent::Warning(
            ScanWarning::MaxItemsReached { target_id, items },
        ) && target_id@ == "global"@ && items == MAX_SCAN_ITEMS),
{
    let mut r: Vec<ScanEvent> = Vec::new();
    if panicked {
        r.push(
            ScanEvent::Warning(
                ScanWarning::PermissionDenied {
                    target_id: "scan".to_owned(),
                    path: "worker thread panicked".to_owned(),
                },
            ),
        );
    }
    if cancelled {
        r.push(ScanEvent::Cancelled);
    } else {
        if global_hit {
            r.push(
                ScanEvent::Warning(
                    ScanWarning::MaxItemsReached { target_id: "global".to_owned(), items: MAX_SCAN_ITEMS },
                ),
            );
        }
        r.push(ScanEvent::Done { total_items, total_bytes, skipped_small });
    }
    r
}

} // verus!

verus! {

/// The expanded directory of a target, or `None` for a `Forbidden` target (never
/// resolved).
pub fn target_dir(t: &ScanTarget, env: &EnvVars) -> (r: Option<String>)
    ensures
        t.level == SafetyLevel::Forbidden ==> r is None,
        t.level != SafetyLevel::Forbidden ==> (r matches Some(p) && p@ == expand_env_spec(
            t.path@,
            env@,
        )),
{
    if t.level == SafetyLevel::Forbidden {
        None
    } else {
        Some(expand_env(t.path.as_str(), env))
    }
}

/// How a resolved target is expanded into scan directories.
pub enum Route {
    /// Protected, or no longer under the expansion of its own pattern: not scanned.
    Skip,
    /// Browser profile directories below it, joined with the cache sub-directories.
    Browser,
    /// The matching sub-directory of every UWP package.
    Uwp,
    /// The directory itself.
    Plain,
}

/// The route of a target whose directory resolved to `safe` (and, resolved once more,
/// to `canon`), given whether `safe` has no parent: 0 skip, 1 browser, 2 UWP, 3 plain.
pub open spec fn route_spec(
    t: ScanTarget,
    safe: Seq<char>,
    canon: Seq<char>,
    env: EnvView,
    no_parent: bool,
) -> int {
    if protected_by_text(safe, env) || no_parent || !env_path_matches(canon, t.path@, env) {
        0
    } else if t.browser_profiles is Some {
        1
    } else if starts_with(t.id@, "uwp_"@) {
        2
    } else {
        3
    }
}

/// The number of a route, in the order of `Route`'s variants.
pub open spec fn route_code(r: Route) -> int {
    match r {
        Route::Skip => 0,
        Route::Browser => 1,
        Route::Uwp => 2,
        Route::Plain => 3,
    }
}

/// The route of a resolved target, given whether its directory has no parent.
pub fn route_given(t: &ScanTarget, safe: &str, canon: &str, env: &EnvVars, no_parent: bool) -> (r: Route)
    ensures
        route_code(r) == route_spec(*t, safe@, canon@, env@, no_parent),
{
    if is_path_protected_given(safe, env, no_parent) {
        return Route::Skip;
    }
    if !verify_env_path_inner(canon, t.path.as_str(), env) {
        return Route::Skip;
    }
    if t.browser_profiles.is_some() {
        Route::Browser
    } else if has_prefix(&chars_of(t.id.as_str()), &chars_of("uwp_")) {
        Route::Uwp
    } else {
        Route::Plain
    }
}

/// The route of a resolved target; whether its directory has a parent is asked of the
/// platform's path rules. A directory protected by its text, or no longer under the
/// expansion of the target's own pattern, is never scanned; a directory that has a
/// parent under every platform's syntax is routed as one with a parent.
pub fn route(t: &ScanTarget, safe: &str, canon: &str, env: &EnvVars) -> (r: Route)
    ensures
        route_code(r) == route_spec(*t, safe@, canon@, env@, true) || route_code(r) == route_spec(
            *t,
            safe@,
            canon@,
            env@,
            false,
        ),
        !(r is Skip) ==> !protected_by_text(safe@, env@) && env_path_matches(canon@, t.path@, env@),
        surely_has_parent(safe@) ==> route_code(r) == route_spec(*t, safe@, canon@, env@, false),
{
    let no_parent = path_has_no_parent(safe);
    route_given(t, safe, canon, env, no_parent)
}

/// The package sub-directory a UWP target cleans: `AC\Temp`, `AC\INetCache` or
/// `LocalCache`; other ids have none.
pub open spec fn uwp_subdir_spec(id: Seq<char>) -> Option<Seq<char>> {
    if id == "uwp_temp"@ {
        Some("AC\\Temp"@)
    } else if id == "uwp_inet_cache"@ {
        Some("AC\\INetCache"@)
    } else if id == "uwp_local_cache"@ {
        Some("LocalCache"@)
    } else {
        None
    }
}

/// The package sub-directory of a UWP target.
pub fn uwp_subdir(id: &str) -> (r: Option<&'static str>)
    ensures
        r matches Some(s) ==> uwp_subdir_spec(id@) == Some(s@),
        r is None ==> uwp_subdir_spec(id@) is None,
{
    let c = chars_of(id);
    if same(&c, &chars_of("uwp_temp")) {
        Some("AC\\Temp")
    } else if same(&c, &chars_of("uwp_inet_cache")) {
        Some("AC\\INetCache")
    } else if same(&c, &chars_of("uwp_local_cache")) {
        Some("LocalCache")
    } else {
        None
    }
}

/// `r` lists elements of `s` found at increasing positions `pos`, all below `limit`.
pub open spec fn picks_in_order(s: Seq<Seq<char>>, r: Seq<Seq<char>>, pos: Seq<int>, limit: int) -> bool {
    &&& pos.len() == r.len()
    &&& forall|i: int|
        0 <= i < pos.len() ==> 0 <= #[trigger] pos[i] < limit && pos[i] < s.len() && s[pos[i]]
            == r[i]
    &&& forall|i: int, j: int| 0 <= i < j < pos.len() ==> pos[i] < pos[j]
}

/// Why a scan cannot start, if it cannot: one is already running, or no target
/// directory resolved.
pub fn scan_start_error(in_progress: bool, resolved_count: usize) -> (r: Option<String>)
    ensures
        in_progress ==> (r matches Some(m) && m@ == "Scan already in progress"@),
        !in_progress && resolved_count == 0 ==> (r matches Some(m) && m@
            == "No scan targets available"@),
        !in_progress && resolved_count > 0 ==> r is None,
{
    if in_progress {
        Some("Scan already in progress".to_owned())
    } else if resolved_count == 0 {
        Some("No scan targets available".to_owned())
    } else {
        None
    }
}

/// The number of package directories considered: the first `MAX_UWP_PACKAGES` listed.
pub open spec fn uwp_considered(len: nat) -> nat {
    if len < MAX_UWP_PACKAGES { len } else { MAX_UWP_PACKAGES as nat }
}

/// The directories of `ds` that are kept, in order: those neither protected by their
/// text nor without a parent (`no_parent[k]` for the `k`-th).
pub open spec fn uwp_pick(ds: Seq<Seq<char>>, env: EnvView, no_parent: Seq<bool>) -> Seq<Seq<char>>
    decreases ds.len(),
{
    if ds.len() == 0 {
        Seq::empty()
    } else {
        let rest = uwp_pick(ds.drop_last(), env, no_parent);
        let k = ds.len() - 1;
        if !(protected_by_text(ds[k], env) || no_parent[k]) {
            rest.push(ds[k])
        } else {
            rest
        }
    }
}

/// The UWP package directories to visit, given for each of the first `MAX_UWP_PACKAGES`
/// listed whether it has no parent: those of them that are not protected, in order.
pub fn select_uwp_packages_given(dirs: &Vec<String>, env: &EnvVars, no_parent: &Vec<bool>) -> (r: Vec<String>)
    requires
        no_parent@.len() >= uwp_considered(dirs@.len()),
    ensures
        r.deep_view() == uwp_pick(
            dirs.deep_view().take(uwp_considered(dirs@.len()) as int),
            env@,
            no_parent@,
        ),
        r@.len() <= MAX_UWP_PACKAGES,
        forall|i: int|
            0 <= i < r@.len() ==> !protected_by_text(#[trigger] r@[i]@, env@),
        exists|pos: Seq<int>| #[trigger] picks_in_order(dirs.deep_view(), r.deep_view(), pos, MAX_UWP_PACKAGES as int),
{
    let n: usize = if dirs.len() < MAX_UWP_PACKAGES { dirs.len() } else { MAX_UWP_PACKAGES };
    let ghost dv = dirs.deep_view();
    let mut r: Vec<String> = Vec::new();
    let ghost mut pos: Seq<int> = Seq::empty();
    let mut i: usize = 0;
    assert(dv.take(0) =~= Seq::<Seq<char>>::empty());
    assert(r.deep_view() =~= Seq::<Seq<char>>::empty());
    while i < n
        invariant
            n == uwp_considered(dirs@.len()),
            n <= dirs@.len(),
            n <= MAX_UWP_PACKAGES,
            no_parent@.len() >= n,
            dv == dirs.deep_view(),
            i <= n,
            r@.len() <= i,
            r.deep_view() == uwp_pick(dv.take(i as int), env@, no_parent@),
            pos.len() == r@.len(),
            forall|a: int| 0 <= a < r@.len() ==> !protected_by_text(#[trigger] r@[a]@, env@),
            forall|a: int|
                0 <= a < pos.len() ==> 0 <= #[trigger] pos[a] < i && dirs@[pos[a]]@ == r@[a]@,
            forall|a: int, b: int| 0 <= a < b < pos.len() ==> pos[a] < pos[b],
        decreases n - i,
    {
        let ghost before = r.deep_view();
        assert(dv.take(i + 1).drop_last() =~= dv.take(i as int));
        assert(dv.take(i + 1)[i as int] == dirs@[i as int]@);
        if !is_path_protected_given(dirs[i].as_str(), env, no_parent[i]) {
            r.push(dirs[i].clone());
            proof {
                pos = pos.push(i as int);
                assert(r.deep_view() =~= before.push(dirs@[i as int]@));
            }
        }
        i = i + 1;
    }
    assert(picks_in_order(dirs.deep_view(), r.deep_view(), pos, MAX_UWP_PACKAGES as int));
    r
}

/// The UWP package directories to visit: the first `MAX_UWP_PACKAGES` listed, without
/// the protected ones, in order. Whether a directory has a parent is asked of the
/// platform's path rules; one that has a parent under every platform's syntax is kept
/// exactly when its text does not protect it.
pub fn select_uwp_packages(dirs: &Vec<String>, env: &EnvVars) -> (r: Vec<String>)
    ensures
        exists|np: Seq<bool>|
            {
                &&& np.len() == uwp_considered(dirs@.len())
                &&& forall|k: int| 0 <= k < np.len() && surely_has_parent(#[trigger] dirs@[k]@) ==> !np[k]
                &&& r.deep_view() == #[trigger] uwp_pick(
                    dirs.deep_view().take(uwp_considered(dirs@.len()) as int),
                    env@,
                    np,
                )
            },
        r@.len() <= MAX_UWP_PACKAGES,
        forall|i: int|
            0 <= i < r@.len() ==> !protected_by_text(#[trigger] r@[i]@, env@),
        exists|pos: Seq<int>| #[trigger] picks_in_order(dirs.deep_view(), r.deep_view(), pos, MAX_UWP_PACKAGES as int),
{
    let n: usize = if dirs.len() < MAX_UWP_PACKAGES { dirs.len() } else { MAX_UWP_PACKAGES };
    let mut np: Vec<bool> = Vec::new();
    let mut i: usize = 0;
    while i < n
        invariant
            n == uwp_considered(dirs@.len()),
            n <= dirs@.len(),
            i <= n,
            np@.len() == i,
            forall|k: int| 0 <= k < i && surely_has_parent(#[trigger] dirs@[k]@) ==> !np@[k],
        decreases n - i,
    {
        np.push(path_has_no_parent(dirs[i].as_str()));
        i = i + 1;
    }
    let r = select_uwp_packages_given(dirs, env, &np);
    assert(r.deep_view() == uwp_pick(dirs.deep_view().take(n as int), env@, np@));
    r
}

/// Whether a profile directory name matches one of the patterns (contains it, or ends
/// with it).
pub open spec fn profile_matches_spec(name: Seq<char>, patterns: Seq<Seq<char>>) -> bool {
    exists|i: int|
        0 <= i < patterns.len() && (contains(name, #[trigger] patterns[i]) || ends_with(
            name,
            patterns[i],
        ))
}

/// Whether a profile directory name matches one of the patterns.
pub fn profile_matches(name: &str, patterns: &Vec<String>) -> (b: bool)
    ensures
        b == profile_matches_spec(name@, patterns.deep_view()),
{
    let n = chars_of(name);
    let mut i: usize = 0;
    while i < patterns.len()
        invariant
            i <= patterns@.len(),
            n@ == name@,
            patterns.deep_view().len() == patterns@.len(),
            forall|j: int|
                0 <= j < i ==> !(contains(name@, #[trigger] patterns.deep_view()[j]) || ends_with(
                    name@,
                    patterns.deep_view()[j],
                )),
        decreases patterns@.len() - i,
    {
        let p = chars_of(patterns[i].as_str());
        assert(patterns.deep_view()[i as int] == p@);
        if has_sub(&n, &p) || has_suffix(&n, &p) {
            return true;
        }
        i = i + 1;
    }
    false
}

/// Every profile directory joined with every cache sub-directory, profile by profile.
pub open spec fn cross_join(profiles: Seq<Seq<char>>, subdirs: Seq<Seq<char>>) -> Seq<Seq<char>>
    decreases profiles.len(),
{
    if profiles.len() == 0 {
        Seq::empty()
    } else {
        cross_join(profiles.drop_last(), subdirs) + subdirs.map_values(
            |d: Seq<char>| join_spec(profiles.last(), d),
        )
    }
}

/// Every matched profile directory joined with every cache sub-directory, profile by
/// profile.
pub fn browser_cache_dirs(profiles: &Vec<String>, subdirs: &Vec<String>) -> (r: Vec<String>)
    ensures
        r.deep_view() == cross_join(profiles.deep_view(), subdirs.deep_view()),
{
    let ghost ps = profiles.deep_view();
    let ghost ds = subdirs.deep_view();
    let mut r: Vec<String> = Vec::new();
    let mut a: usize = 0;
    while a < profiles.len()
        invariant
            ps == profiles.deep_view(),
            ds == subdirs.deep_view(),
            a <= profiles@.len(),
            r.deep_view() == cross_join(ps.subrange(0, a as int), ds),
        decreases profiles@.len() - a,
    {
        let ghost start = r.deep_view();
        let mut b: usize = 0;
        while b < subdirs.len()
            invariant
                ps == profiles.deep_view(),
                ds == subdirs.deep_view(),
                a < profiles@.len(),
                b <= subdirs@.len(),
                r.deep_view() == start + ds.subrange(0, b as int).map_values(
                    |d: Seq<char>| join_spec(ps[a as int], d),
                ),
            decreases subdirs@.len() - b,
        {
            let ghost before = r.deep_view();
            let j = join_dir(profiles[a].as_str(), subdirs[b].as_str());
            r.push(j);
            assert(r.deep_view() =~= before.push(j@));
            assert(ds.subrange(0, b + 1).map_values(|d: Seq<char>| join_spec(ps[a as int], d))
                =~= ds.subrange(0, b as int).map_values(|d: Seq<char>| join_spec(ps[a as int], d)).push(
                join_spec(ps[a as int], ds[b as int]),
            ));
            b = b + 1;
        }
        assert(ds.subrange(0, ds.len() as int) =~= ds);
        assert(ps.subrange(0, a + 1).drop_last() =~= ps.subrange(0, a as int));
        assert(ps.subrange(0, a + 1).last() == ps[a as int]);
        a = a + 1;
    }
    assert(ps.subrange(0, ps.len() as int) =~= ps);
    r
}

/// The scan directories found so far, each with the index of its target; a directory is
/// listed once, for the first target that reaches it.
pub struct Resolved {
    entries: Vec<(String, usize)>,
}

impl View for Resolved {
    type V = Seq<(Seq<char>, usize)>;

    closed spec fn view(&self) -> Seq<(Seq<char>, usize)> {
        self.entries@.map_values(|e: (String, usize)| (e.0@, e.1))
    }
}

/// No directory occurs twice.
pub open spec fn distinct_dirs(s: Seq<(Seq<char>, usize)>) -> bool {
    forall|i: int, j: int| 0 <= i < j < s.len() ==> s[i].0 != s[j].0
}

/// Whether some entry lists directory `dir`.
pub open spec fn lists_dir(s: Seq<(Seq<char>, usize)>, dir: Seq<char>) -> bool {
    exists|i: int| 0 <= i < s.len() && s[i].0 == dir
}

impl Resolved {
    /// No directories yet.
    pub fn new() -> (r: Self)
        ensures
            r@.len() == 0,
    {
        let r = Resolved { entries: Vec::new() };
        assert(r@ =~= Seq::<(Seq<char>, usize)>::empty());
        r
    }

    /// Offers directory `dir` of target `idx`; it is added unless already listed.
    /// Returns whether it was added.
    pub fn offer(&mut self, dir: String, idx: usize) -> (added: bool)
        requires
            distinct_dirs(old(self)@),
        ensures
            added == !lists_dir(old(self)@, dir@),
            added ==> final(self)@ == old(self)@.push((dir@, idx)),
            !added ==> final(self)@ == old(self)@,
            distinct_dirs(final(self)@),
    {
        let d = chars_of(dir.as_str());
        let mut i: usize = 0;
        while i < self.entries.len()
            invariant
                i <= self.entries@.len(),
                self@.len() == self.entries@.len(),
                d@ == dir@,
                distinct_dirs(self@),
                forall|j: int| 0 <= j < i ==> self@[j].0 != dir@,
            decreases self.entries@.len() - i,
        {
            if same(&chars_of(self.entries[i].0.as_str()), &d) {
                assert(self@[i as int].0 == dir@);
                return false;
            }
            i = i + 1;
        }
        let ghost before = self@;
        self.entries.push((dir, idx));
        assert(self@ =~= before.push((dir@, idx)));
        true
    }

    /// Whether directory `dir` is listed.
    pub fn contains(&self, dir: &str) -> (b: bool)
        ensures
            b == lists_dir(self@, dir@),
    {
        let d = chars_of(dir);
        let mut i: usize = 0;
        while i < self.entries.len()
            invariant
                i <= self.entries@.len(),
                self@.len() == self.entries@.len(),
                d@ == dir@,
                forall|j: int| 0 <= j < i ==> self@[j].0 != dir@,
            decreases self.entries@.len() - i,
        {
            if same(&chars_of(self.entries[i].0.as_str()), &d) {
                assert(self@[i as int].0 == dir@);
                return true;
            }
            i = i + 1;
        }
        false
    }

    /// The directories with their target indices, in the order they were added.
    pub fn into_entries(self) -> (r: Vec<(String, usize)>)
        ensures
            r@.map_values(|e: (String, usize)| (e.0@, e.1)) == self@,
    {
        self.entries
    }
}

/// Whether file attributes mark a reparse point (a junction or symbolic link, not
/// followed when listing package or profile directories).
pub fn is_reparse_attribute(attributes: u32) -> (b: bool)
    ensures
        b == (attributes & 0x400u32 != 0),
{
    attributes & 0x400u32 != 0
}

} // verus!
