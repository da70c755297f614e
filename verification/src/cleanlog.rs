//! The clean log: UTC timestamps, the entries written after a clean, and the rules for
//! reading and rotating the log file (the file itself is handled by the caller).

use vstd::prelude::*;
use crate::cleaner::DeleteResult;
use crate::paths::{lowercase_of, simple_last_segment, to_lowercase};
use crate::text::{chars_of, contains, has_sub, push_all, push_str, slice_copy, string_of};

verus! {

/// Name of the clean log file in the data directory.
pub const CLEAN_LOG_FILE: &'static str = "clean_log.jsonl";

/// The log is rotated once it grows past this many bytes.
pub const MAX_LOG_BYTES: u64 = 1_048_576;

/// Number of rotated backups kept (`clean_log.1.jsonl` to `clean_log.5.jsonl`).
pub const MAX_LOG_BACKUPS: u32 = 5;

/// Seconds since the Unix epoch by the system clock (`SystemTime::now`); a clock set
/// before the epoch gives 0. Nothing is stated of the value: it is the current time.
#[verifier::external_body]
pub(crate) fn seconds_since_epoch() -> (r: u64) {
    std::time::SystemTime::now().duration_since(std::time::UNIX_EPOCH).map(|d| d.as_secs()).unwrap_or(0)
}

/// Gregorian leap year rule.
pub open spec fn is_leap(y: int) -> bool {
    (y % 4 == 0 && y % 100 != 0) || y % 400 == 0
}

/// Days in year `y`.
pub open spec fn year_len(y: int) -> int {
    if is_leap(y) {
        366
    } else {
        365
    }
}

/// Days in month `m` (1 to 12) of a leap or common year.
pub open spec fn month_len(leap: bool, m: int) -> int {
    if m == 2 {
        if leap {
            29
        } else {
            28
        }
    } else if m == 4 || m == 6 || m == 9 || m == 11 {
        30
    } else {
        31
    }
}

/// The year that day `rem` (counted from January 1st of year `y`) falls in, and the
/// day's index within that year.
pub open spec fn civil_year(y: int, rem: int) -> (int, int)
    decreases rem,
{
    if rem < year_len(y) {
        (y, rem)
    } else {
        civil_year(y + 1, rem - year_len(y))
    }
}

/// The month (from `m`) that day `rem` of the year falls in, and the day's index within
/// that month.
pub open spec fn civil_month(leap: bool, m: int, rem: int) -> (int, int)
    decreases 13 - m,
{
    if m >= 12 || rem < month_len(leap, m) {
        (m, rem)
    } else {
        civil_month(leap, m + 1, rem - month_len(leap, m))
    }
}

/// The character of a decimal digit.
pub open spec fn digit_char(d: int) -> char {
    if d == 0 {
        '0'
    } else if d == 1 {
        '1'
    } else if d == 2 {
        '2'
    } else if d == 3 {
        '3'
    } else if d == 4 {
        '4'
    } else if d == 5 {
        '5'
    } else if d == 6 {
        '6'
    } else if d == 7 {
        '7'
    } else if d == 8 {
        '8'
    } else {
        '9'
    }
}

/// The decimal digits of `n`, without leading zeros.
pub open spec fn decimal(n: nat) -> Seq<char>
    decreases n,
{
    if n < 10 {
        seq![digit_char(n as int)]
    } else {
        decimal(n / 10).push(digit_char((n % 10) as int))
    }
}

/// `s` left-padded with `0` to at least `width` characters.
pub open spec fn zero_pad(s: Seq<char>, width: nat) -> Seq<char> {
    if s.len() >= width {
        s
    } else {
        Seq::new((width - s.len()) as nat, |i: int| '0') + s
    }
}

/// `YYYY-MM-DDTHH:MM:SSZ` for `secs` seconds after the Unix epoch (UTC; the year has
/// at least four digits).
pub open spec fn utc_timestamp(secs: nat) -> Seq<char> {
    let days = secs / 86400;
    let t = secs % 86400;
    let (y, yday) = civil_year(1970, days as int);
    let (mo, mday) = civil_month(is_leap(y), 1, yday);
    zero_pad(decimal(y as nat), 4) + "-"@ + zero_pad(decimal(mo as nat), 2) + "-"@ + zero_pad(
        decimal((mday + 1) as nat),
        2,
    ) + "T"@ + zero_pad(decimal(t / 3600), 2) + ":"@ + zero_pad(decimal((t % 3600) / 60), 2)
        + ":"@ + zero_pad(decimal(t % 60), 2) + "Z"@
}

fn digit(d: u64) -> (c: char)
    requires
        d < 10,
    ensures
        c == digit_char(d as int),
{
    if d == 0 {
        '0'
    } else if d == 1 {
        '1'
    } else if d == 2 {
        '2'
    } else if d == 3 {
        '3'
    } else if d == 4 {
        '4'
    } else if d == 5 {
        '5'
    } else if d == 6 {
        '6'
    } else if d == 7 {
        '7'
    } else if d == 8 {
        '8'
    } else {
        '9'
    }
}

pub(crate) fn decimal_exec(n: u64) -> (r: Vec<char>)
    ensures
        r@ == decimal(n as nat),
    decreases n,
{
    if n < 10 {
        let r = vec![digit(n)];
        assert(r@ =~= seq![digit_char(n as int)]);
        r
    } else {
        let mut r = decimal_exec(n / 10);
        r.push(digit(n % 10));
        r
    }
}

/// Appends the digits of `n`, zero-padded to `width`.
fn push_padded(v: &mut Vec<char>, n: u64, width: usize)
    ensures
        final(v)@ == old(v)@ + zero_pad(decimal(n as nat), width as nat),
{
    let d = decimal_exec(n);
    let ghost start = v@;
    if d.len() < width {
        let pad = width - d.len();
        let mut i: usize = 0;
        while i < pad
            invariant
                i <= pad,
                v@ == start + Seq::new(i as nat, |k: int| '0'),
            decreases pad - i,
        {
            v.push('0');
            i = i + 1;
            assert(v@ =~= start + Seq::new(i as nat, |k: int| '0'));
        }
    }
    let ghost mid = v@;
    push_all(v, &d);
    assert(v@ =~= start + zero_pad(decimal(n as nat), width as nat));
}

proof fn lemma_year_bound(y: int, rem: int)
    requires
        y >= 1970,
        rem >= 0,
    ensures
        civil_year(y, rem).0 >= y,
        civil_year(y, rem).0 <= y + rem,
        0 <= civil_year(y, rem).1 < year_len(civil_year(y, rem).0),
    decreases rem,
{
    if rem >= year_len(y) {
        lemma_year_bound(y + 1, rem - year_len(y));
    }
}

proof fn lemma_month_bound(leap: bool, m: int, rem: int)
    requires
        1 <= m <= 12,
        0 <= rem,
    ensures
        m <= civil_month(leap, m, rem).0 <= 12,
        0 <= civil_month(leap, m, rem).1,
        civil_month(leap, m, rem).1 <= rem,
    decreases 13 - m,
{
    if !(m >= 12 || rem < month_len(leap, m)) {
        lemma_month_bound(leap, m + 1, rem - month_len(leap, m));
    }
}

/// Formats `secs` seconds after the Unix epoch as `YYYY-MM-DDTHH:MM:SSZ` (UTC).
pub fn format_utc_timestamp(secs: u64) -> (r: String)
    ensures
        r@ == utc_timestamp(secs as nat),
{
    let days = secs / 86400;
    let t = secs % 86400;
    let h = t / 3600;
    let m = (t % 3600) / 60;
    let s = t % 60;
    let mut y: u64 = 1970;
    let mut remaining: u64 = days;
    proof {
        lemma_year_bound(1970, days as int);
    }
    loop
        invariant
            civil_year(1970, days as int) == civil_year(y as int, remaining as int),
            1970 <= y <= 1970 + days - remaining,
            remaining <= days,
            days == secs / 86400,
        ensures
            civil_year(1970, days as int) == (y as int, remaining as int),
            1970 <= y <= 1970 + days,
        decreases remaining,
    {
        let len: u64 = if (y % 4 == 0 && y % 100 != 0) || y % 400 == 0 {
            366
        } else {
            365
        };
        assert(len == year_len(y as int));
        if remaining < len {
            break;
        }
        remaining = remaining - len;
        y = y + 1;
    }
    let leap = (y % 4 == 0 && y % 100 != 0) || y % 400 == 0;
    let ghost yd = remaining as int;
    assert(civil_year(1970, days as int) == (y as int, yd));
    let mut mo: u64 = 1;
    loop
        invariant
            1 <= mo <= 12,
            leap == is_leap(y as int),
            civil_month(leap, 1, yd) == civil_month(leap, mo as int, remaining as int),
            remaining <= days,
        ensures
            1 <= mo <= 12,
            remaining <= days,
            civil_month(leap, 1, yd) == (mo as int, remaining as int),
        decreases 13 - mo,
    {
        let len: u64 = if mo == 2 {
            if leap {
                29
            } else {
                28
            }
        } else if mo == 4 || mo == 6 || mo == 9 || mo == 11 {
            30
        } else {
            31
        };
        assert(len == month_len(leap, mo as int));
        if mo >= 12 || remaining < len {
            break;
        }
        remaining = remaining - len;
        mo = mo + 1;
    }
    assert(civil_month(leap, 1, yd) == (mo as int, remaining as int));
    let mut v: Vec<char> = Vec::new();
    push_padded(&mut v, y, 4);
    push_str(&mut v, "-");
    push_padded(&mut v, mo, 2);
    push_str(&mut v, "-");
    push_padded(&mut v, remaining + 1, 2);
    push_str(&mut v, "T");
    push_padded(&mut v, h, 2);
    push_str(&mut v, ":");
    push_padded(&mut v, m, 2);
    push_str(&mut v, ":");
    push_padded(&mut v, s, 2);
    push_str(&mut v, "Z");
    assert(v@ =~= utc_timestamp(secs as nat));
    string_of(&v)
}

/// The current UTC time as `YYYY-MM-DDTHH:MM:SSZ`.
pub fn timestamp_now() -> (r: String)
    ensures
        exists|secs: nat| secs <= u64::MAX && r@ == utc_timestamp(secs),
{
    let secs = seconds_since_epoch();
    format_utc_timestamp(secs)
}

} // verus!

verus! {

/// Files and bytes of one category in a clean log entry.
#[derive(Clone, Copy, Debug)]
pub struct CategorySummary {
    pub files: u64,
    pub bytes: u64,
}

/// One line of the clean log, written after a clean.
#[derive(Clone, Debug)]
pub struct CleanLogEntry {
    pub timestamp: String,
    pub total_files: u64,
    pub total_bytes: u64,
    pub success: u64,
    pub failed: u64,
    /// Error reasons, with paths removed.
    pub errors: Vec<String>,
    /// Per-category totals, by category name (each name once).
    pub by_category: Vec<(String, CategorySummary)>,
}

/// The newest clean log entries, newest first.
#[derive(Clone, Debug)]
pub struct CleanLogSummary {
    pub entries: Vec<CleanLogEntry>,
}

/// An error message reduced to its reason, so that no path is logged: the three known
/// reasons by keyword (case-insensitive), else the message's file name when it reads as
/// a path with one (`file_name`), else its first 30 characters.
pub open spec fn sanitized(e: Seq<char>, file_name: Option<Seq<char>>) -> Seq<char> {
    let lower = lowercase_of(e);
    if contains(lower, "protected"@) {
        "protected path"@
    } else if contains(lower, "not in scan scope"@) {
        "path not in scan scope"@
    } else if contains(lower, "cannot resolve"@) {
        "cannot resolve path"@
    } else {
        match file_name {
            Some(f) => f,
            None => if e.len() <= 30 {
                e
            } else {
                e.subrange(0, 30)
            },
        }
    }
}

/// What std's `Path::file_name` can answer for `e`: a final component is a non-empty
/// piece of the text, and for a path of `simple_last_segment` it is that segment.
pub open spec fn file_name_fits(e: Seq<char>, f: Option<Seq<char>>) -> bool {
    &&& (f matches Some(x) ==> x.len() > 0 && contains(e, x))
    &&& (simple_last_segment(e) matches Some(n) ==> f == Some(n))
}

/// The last component of `e` read as a path (std's `Path::file_name`, documented as the
/// final component, `None` when the path ends in `..` or has none). A component is a
/// non-empty piece of the text; where the path's syntax is the same on every platform
/// (`simple_last_segment`) it is the text after the last `/`. Otherwise what is a
/// component depends on the platform, and nothing more is stated.
#[verifier::external_body]
pub(crate) fn path_file_name(e: &str) -> (r: Option<String>)
    ensures
        file_name_fits(e@, crate::cleaner::opt_string_view(r)),
{
    std::path::Path::new(e).file_name().map(|f| f.to_string_lossy().into_owned())
}

/// `out` is `e` reduced to its reason, for some answer to the message's file name that
/// std's path rules can give: for a message without a known reason, `out` is a non-empty
/// piece of the message (its file name) or its first 30 characters.
pub open spec fn is_sanitized(out: Seq<char>, e: Seq<char>) -> bool {
    exists|f: Option<Seq<char>>| file_name_fits(e, f) && out == #[trigger] sanitized(e, f)
}

/// An error message reduced to its reason, given the message's file name as a path.
pub fn sanitize_error_given(e: &str, file_name: Option<String>) -> (r: String)
    ensures
        r@ == sanitized(e@, crate::cleaner::opt_string_view(file_name)),
{
    let lower = to_lowercase(&chars_of(e));
    if has_sub(&lower, &chars_of("protected")) {
        "protected path".to_owned()
    } else if has_sub(&lower, &chars_of("not in scan scope")) {
        "path not in scan scope".to_owned()
    } else if has_sub(&lower, &chars_of("cannot resolve")) {
        "cannot resolve path".to_owned()
    } else {
        match file_name {
            Some(f) => f,
            None => {
                let c = chars_of(e);
                let end: usize = if c.len() <= 30 { c.len() } else { 30 };
                let t = slice_copy(&c, 0, end);
                assert(c@.len() <= 30 ==> t@ =~= c@);
                string_of(&t)
            },
        }
    }
}

/// An error message reduced to its reason (see `sanitized`); the file name of the
/// message read as a path is taken from the platform's path rules.
pub fn sanitize_error(e: &str) -> (r: String)
    ensures
        is_sanitized(r@, e@),
{
    let f = path_file_name(e);
    let ghost fv = crate::cleaner::opt_string_view(f);
    let r = sanitize_error_given(e, f);
    assert(r@ == sanitized(e@, fv));
    r
}

/// The total of the known sizes.
pub open spec fn known_total(sizes: Seq<Option<u64>>) -> nat
    decreases sizes.len(),
{
    if sizes.len() == 0 {
        0
    } else {
        known_total(sizes.drop_last()) + match sizes.last() {
            Some(b) => b as nat,
            None => 0,
        }
    }
}

/// The clean log entry of a clean of files with the given sizes (`None` where the size
/// could not be read): totals over the known sizes, all files under category `other`,
/// the result's counts, and its errors reduced to their reasons.
pub fn clean_log_entry(timestamp: String, sizes: &Vec<Option<u64>>, result: &DeleteResult) -> (r: CleanLogEntry)
    requires
        known_total(sizes@) <= u64::MAX,
    ensures
        r.timestamp == timestamp,
        r.total_files == sizes@.len(),
        r.total_bytes == known_total(sizes@),
        r.success == result.success,
        r.failed == result.failed,
        r.errors@.len() == result.errors@.len(),
        forall|i: int|
            0 <= i < r.errors@.len() ==> is_sanitized((#[trigger] r.errors@[i])@, result.errors@[i]@),
        sizes@.len() == 0 ==> r.by_category@.len() == 0,
        sizes@.len() > 0 ==> r.by_category@.len() == 1 && r.by_category@[0].0@ == "other"@
            && r.by_category@[0].1.files == sizes@.len() && r.by_category@[0].1.bytes
            == known_total(sizes@),
{
    let mut total: u64 = 0;
    let mut i: usize = 0;
    while i < sizes.len()
        invariant
            i <= sizes@.len(),
            known_total(sizes@) <= u64::MAX,
            total == known_total(sizes@.subrange(0, i as int)),
        decreases sizes@.len() - i,
    {
        assert(sizes@.subrange(0, i + 1).drop_last() =~= sizes@.subrange(0, i as int));
        proof {
            lemma_known_total_prefix(sizes@, i as int + 1);
        }
        match sizes[i] {
            Some(b) => {
                total = total + b;
            },
            None => {},
        }
        i = i + 1;
    }
    assert(sizes@.subrange(0, sizes@.len() as int) =~= sizes@);
    let mut errors: Vec<String> = Vec::new();
    let mut k: usize = 0;
    while k < result.errors.len()
        invariant
            k <= result.errors@.len(),
            errors@.len() == k,
            forall|j: int|
                0 <= j < k ==> is_sanitized((#[trigger] errors@[j])@, result.errors@[j]@),
        decreases result.errors@.len() - k,
    {
        let e = sanitize_error(result.errors[k].as_str());
        errors.push(e);
        assert(errors@[k as int] == e);
        k = k + 1;
    }
    let mut by_category: Vec<(String, CategorySummary)> = Vec::new();
    if sizes.len() > 0 {
        by_category.push(("other".to_owned(), CategorySummary { files: sizes.len() as u64, bytes: total }));
    }
    CleanLogEntry {
        timestamp,
        total_files: sizes.len() as u64,
        total_bytes: total,
        success: result.success,
        failed: result.failed,
        errors,
        by_category,
    }
}

proof fn lemma_known_total_prefix(sizes: Seq<Option<u64>>, n: int)
    requires
        0 <= n <= sizes.len(),
    ensures
        known_total(sizes.subrange(0, n)) <= known_total(sizes),
    decreases sizes.len(),
{
    if n < sizes.len() {
        assert(sizes.drop_last().subrange(0, n) =~= sizes.subrange(0, n));
        lemma_known_total_prefix(sizes.drop_last(), n);
    } else {
        assert(sizes.subrange(0, n) =~= sizes);
    }
}

/// Splits `s` at every `\n` (one more piece than there are newlines).
pub open spec fn split_newlines(s: Seq<char>) -> Seq<Seq<char>>
    decreases s.len(),
{
    if s.len() == 0 {
        seq![Seq::empty()]
    } else {
        let rest = split_newlines(s.drop_last());
        if s.last() == '\n' {
            rest.push(Seq::empty())
        } else {
            rest.update(rest.len() - 1, rest.last().push(s.last()))
        }
    }
}

/// A piece that ended with `\r\n` loses its `\r`.
pub open spec fn strip_cr(p: Seq<char>) -> Seq<char> {
    if p.len() > 0 && p.last() == '\r' {
        p.drop_last()
    } else {
        p
    }
}

/// The lines of `s` as std's `str::lines` yields them: split at `\n`, a `\r` right
/// before a `\n` removed, and no empty last line after a final newline.
pub open spec fn text_lines(s: Seq<char>) -> Seq<Seq<char>> {
    let pieces = split_newlines(s);
    let k = pieces.len() - 1;
    let done = Seq::new(k as nat, |i: int| strip_cr(pieces[i]));
    if pieces[k].len() == 0 {
        done
    } else {
        done.push(pieces[k])
    }
}

proof fn lemma_split_len(s: Seq<char>)
    ensures
        split_newlines(s).len() >= 1,
    decreases s.len(),
{
    if s.len() > 0 {
        lemma_split_len(s.drop_last());
    }
}

fn lines_exec(s: &str) -> (r: Vec<Vec<char>>)
    ensures
        r@.len() == text_lines(s@).len(),
        forall|i: int| 0 <= i < r@.len() ==> (#[trigger] r@[i])@ == text_lines(s@)[i],
{
    let c = chars_of(s);
    let mut done: Vec<Vec<char>> = Vec::new();
    let mut cur: Vec<char> = Vec::new();
    let mut i: usize = 0;
    while i < c.len()
        invariant
            i <= c@.len(),
            c@ == s@,
            split_newlines(c@.subrange(0, i as int)).len() == done@.len() + 1,
            forall|j: int|
                0 <= j < done@.len() ==> (#[trigger] done@[j])@ == split_newlines(
                    c@.subrange(0, i as int),
                )[j],
            cur@ == split_newlines(c@.subrange(0, i as int)).last(),
        decreases c@.len() - i,
    {
        let ghost pre = c@.subrange(0, i as int);
        assert(c@.subrange(0, i + 1).drop_last() =~= pre);
        proof {
            lemma_split_len(pre);
        }
        if c[i] == '\n' {
            let mut fresh: Vec<char> = Vec::new();
            std::mem::swap(&mut fresh, &mut cur);
            done.push(fresh);
        } else {
            cur.push(c[i]);
        }
        i = i + 1;
    }
    assert(c@.subrange(0, c@.len() as int) =~= c@);
    let ghost pieces = split_newlines(s@);
    let mut r: Vec<Vec<char>> = Vec::new();
    let mut j: usize = 0;
    while j < done.len()
        invariant
            j <= done@.len(),
            pieces.len() == done@.len() + 1,
            forall|m: int| 0 <= m < done@.len() ==> (#[trigger] done@[m])@ == pieces[m],
            r@.len() == j,
            forall|m: int| 0 <= m < j ==> (#[trigger] r@[m])@ == strip_cr(pieces[m]),
        decreases done@.len() - j,
    {
        let p = &done[j];
        let line = if p.len() > 0 && p[p.len() - 1] == '\r' {
            slice_copy(p, 0, p.len() - 1)
        } else {
            slice_copy(p, 0, p.len())
        };
        assert(p@.len() > 0 && p@.last() == '\r' ==> line@ =~= p@.drop_last());
        assert(!(p@.len() > 0 && p@.last() == '\r') ==> line@ =~= p@);
        r.push(line);
        j = j + 1;
    }
    if cur.len() > 0 {
        r.push(cur);
    }
    r
}

proof fn lemma_split_append(s: Seq<char>, t: Seq<char>)
    requires
        !t.contains('\n'),
    ensures
        split_newlines(s + t) == split_newlines(s).update(
            split_newlines(s).len() - 1,
            split_newlines(s).last() + t,
        ),
    decreases t.len(),
{
    lemma_split_len(s);
    if t.len() == 0 {
        assert(s + t =~= s);
        assert(split_newlines(s).last() + t =~= split_newlines(s).last());
        assert(split_newlines(s).update(split_newlines(s).len() - 1, split_newlines(s).last())
            =~= split_newlines(s));
    } else {
        let t0 = t.drop_last();
        assert(!t0.contains('\n')) by {
            if t0.contains('\n') {
                let i = choose|i: int| 0 <= i < t0.len() && t0[i] == '\n';
                assert(t[i] == '\n');
            }
        }
        lemma_split_append(s, t0);
        assert((s + t).drop_last() =~= s + t0);
        assert((s + t).last() == t.last());
        assert(t.last() != '\n') by {
            assert(t[t.len() - 1] == t.last());
        }
        let base = split_newlines(s);
        let rest = split_newlines(s + t0);
        assert(rest.last() == base.last() + t0);
        assert(rest.last().push(t.last()) =~= base.last() + t);
        assert(rest.update(rest.len() - 1, rest.last().push(t.last())) =~= base.update(
            base.len() - 1,
            base.last() + t,
        ));
    }
}

proof fn lemma_split_last_empty(s: Seq<char>)
    requires
        s.len() == 0 || s.last() == '\n',
    ensures
        split_newlines(s).last().len() == 0,
{
}

/// Law: appending one line and a newline to a log text that is empty or ends with a
/// newline adds exactly that line after the text's lines, so `newest_lines` of the new
/// text lists it first. The line holds no newline and does not end with `\r`, as a
/// serialised log entry never does.
pub proof fn law_appended_line_read_first(content: Seq<char>, line: Seq<char>)
    requires
        content.len() == 0 || content.last() == '\n',
        !line.contains('\n'),
        line.len() == 0 || line.last() != '\r',
    ensures
        text_lines(content + line + seq!['\n']) == text_lines(content).push(line),
        text_lines(content + line + seq!['\n'])[text_lines(content).len() as int] == line,
{
    lemma_split_len(content);
    lemma_split_last_empty(content);
    lemma_split_append(content, line);
    let base = split_newlines(content);
    let k = base.len() - 1;
    let mid = split_newlines(content + line);
    let c2 = content + line + seq!['\n'];
    assert(c2.drop_last() =~= content + line);
    assert(c2.last() == '\n');
    let pieces = split_newlines(c2);
    assert(pieces == mid.push(Seq::<char>::empty()));
    assert(base.last() + line =~= line);
    assert(strip_cr(line) == line);
    assert(text_lines(c2) =~= text_lines(content).push(line));
}

/// The newest `limit` lines of the log text, newest first.
pub fn newest_lines(content: &str, limit: usize) -> (r: Vec<String>)
    ensures
        r@.len() == (if text_lines(content@).len() < limit {
            text_lines(content@).len()
        } else {
            limit as nat
        }),
        forall|i: int|
            0 <= i < r@.len() ==> (#[trigger] r@[i])@ == text_lines(content@)[text_lines(
                content@,
            ).len() - 1 - i],
{
    let lines = lines_exec(content);
    let n = lines.len();
    let mut r: Vec<String> = Vec::new();
    let mut i: usize = 0;
    while i < n && i < limit
        invariant
            n == lines@.len(),
            n == text_lines(content@).len(),
            forall|m: int| 0 <= m < n ==> (#[trigger] lines@[m])@ == text_lines(content@)[m],
            i <= n,
            i <= limit,
            r@.len() == i,
            forall|m: int|
                0 <= m < i ==> (#[trigger] r@[m])@ == text_lines(content@)[n - 1 - m],
        decreases n - i,
    {
        r.push(string_of(&lines[n - 1 - i]));
        i = i + 1;
    }
    r
}

/// Whether a log file of `size` bytes is due for rotation.
pub fn needs_rotation(size: u64) -> (b: bool)
    ensures
        b == (size > MAX_LOG_BYTES),
{
    size > MAX_LOG_BYTES
}

/// The renames of a rotation, in order: backup `i` becomes backup `i + 1` for `i` from
/// `MAX_LOG_BACKUPS - 1` down to 1 (the oldest is overwritten); then the log itself
/// becomes backup 1.
pub fn rotation_steps() -> (r: Vec<(u32, u32)>)
    ensures
        r@.len() == MAX_LOG_BACKUPS - 1,
        forall|i: int|
            0 <= i < r@.len() ==> (#[trigger] r@[i]).0 == MAX_LOG_BACKUPS - 1 - i && r@[i].1
                == MAX_LOG_BACKUPS - i,
{
    let mut r: Vec<(u32, u32)> = Vec::new();
    let mut i: u32 = MAX_LOG_BACKUPS - 1;
    while i >= 1
        invariant
            i <= MAX_LOG_BACKUPS - 1,
            r@.len() == MAX_LOG_BACKUPS - 1 - i,
            forall|m: int|
                0 <= m < r@.len() ==> (#[trigger] r@[m]).0 == MAX_LOG_BACKUPS - 1 - m && r@[m].1
                    == MAX_LOG_BACKUPS - m,
        decreases i,
    {
        r.push((i, i + 1));
        i = i - 1;
    }
    r
}

/// The file name of backup `i`: `clean_log.<i>.jsonl`.
pub open spec fn backup_name_spec(i: u32) -> Seq<char> {
    "clean_log."@ + decimal(i as nat) + ".jsonl"@
}

/// The file name of backup `i`.
pub fn backup_file_name(i: u32) -> (r: String)
    ensures
        r@ == backup_name_spec(i),
{
    let mut v = chars_of("clean_log.");
    let d = decimal_exec(i as u64);
    push_all(&mut v, &d);
    push_str(&mut v, ".jsonl");
    string_of(&v)
}

} // verus!
