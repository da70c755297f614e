//! Environment expansion of target paths and the path safety rules: which paths are
//! protected, and which lie inside a cleaning target.

use vstd::prelude::*;
use crate::cleaner::ScanTarget;
use crate::text::{
    ascii_lower, ascii_upper, is_ascii_text, before_char, chars_of, eq_ignore_ascii_case, find, first_occurrence,
    has_prefix, lemma_first_occurrence, map_char, push_all, push_str, replace_all,
    replace_char, replace_seq, same, slice_copy, starts_with,
    string_of, strip_prefix_all, strip_suffix_any, take_before, trim_end_any, trim_start_all,
    lemma_trim_start_all_suffix,
};

verus! {

/// Result of std's `str::to_lowercase` (Unicode lowercase mapping).
pub uninterp spec fn lowercase_of(s: Seq<char>) -> Seq<char>;

/// Result of std's `str::to_uppercase` (Unicode uppercase mapping).
pub uninterp spec fn uppercase_of(s: Seq<char>) -> Seq<char>;

/// Unicode lowercase through `str::to_lowercase`; the result is named `lowercase_of`.
/// On ASCII text the Unicode lowercase mapping is the ASCII one (`A`..`Z` to `a`..`z`,
/// everything else unchanged), as `str::to_ascii_lowercase` documents it.
#[verifier::external_body]
pub(crate) fn to_lowercase(s: &[char]) -> (r: Vec<char>)
    ensures
        r@ == lowercase_of(s@),
        is_ascii_text(s@) ==> r@ == ascii_lower(s@),
{
    let text: String = s.iter().collect();
    text.to_lowercase().chars().collect()
}

/// Unicode uppercase through `str::to_uppercase`; the result is named `uppercase_of`.
/// On ASCII text the Unicode uppercase mapping is the ASCII one (`a`..`z` to `A`..`Z`,
/// everything else unchanged), as `str::to_ascii_uppercase` documents it.
#[verifier::external_body]
pub(crate) fn to_uppercase(s: &[char]) -> (r: Vec<char>)
    ensures
        r@ == uppercase_of(s@),
        is_ascii_text(s@) ==> r@ == ascii_upper(s@),
{
    let text: String = s.iter().collect();
    text.to_uppercase().chars().collect()
}

/// A snapshot of environment variables. With `case_insensitive` (as on Windows) names
/// are compared ignoring ASCII case.
#[derive(Clone, Debug)]
pub struct EnvVars {
    vars: Vec<(String, String)>,
    case_insensitive: bool,
}

pub struct EnvView {
    pub vars: Seq<(Seq<char>, Seq<char>)>,
    pub case_insensitive: bool,
}

impl View for EnvVars {
    type V = EnvView;

    closed spec fn view(&self) -> EnvView {
        EnvView {
            vars: self.vars@.map_values(|p: (String, String)| (p.0@, p.1@)),
            case_insensitive: self.case_insensitive,
        }
    }
}

pub open spec fn env_name_eq(ci: bool, a: Seq<char>, b: Seq<char>) -> bool {
    if ci {
        ascii_lower(a) == ascii_lower(b)
    } else {
        a == b
    }
}

/// Value of the first variable at or after `i` whose name matches `name`.
pub open spec fn env_lookup_from(env: EnvView, name: Seq<char>, i: int) -> Option<Seq<char>>
    decreases env.vars.len() - i,
{
    if i < 0 || i >= env.vars.len() {
        None
    } else if env_name_eq(env.case_insensitive, env.vars[i].0, name) {
        Some(env.vars[i].1)
    } else {
        env_lookup_from(env, name, i + 1)
    }
}

/// Value of variable `name` in the snapshot.
pub open spec fn env_lookup(env: EnvView, name: Seq<char>) -> Option<Seq<char>> {
    env_lookup_from(env, name, 0)
}

impl EnvVars {
    /// An empty snapshot.
    pub fn new(case_insensitive: bool) -> (e: Self)
        ensures
            e@.vars.len() == 0,
            e@.case_insensitive == case_insensitive,
    {
        EnvVars { vars: Vec::new(), case_insensitive }
    }

    /// Adds a variable; an earlier variable of the same name takes precedence.
    pub fn push(&mut self, name: String, value: String)
        ensures
            final(self)@.vars == old(self)@.vars.push((name@, value@)),
            final(self)@.case_insensitive == old(self)@.case_insensitive,
    {
        let ghost before = self@.vars;
        self.vars.push((name, value));
        assert(self@.vars =~= before.push((name@, value@)));
    }

    /// Looks a variable up.
    pub fn get(&self, name: &[char]) -> (r: Option<Vec<char>>)
        ensures
            r matches Some(v) ==> env_lookup(self@, name@) == Some(v@),
            r is None ==> env_lookup(self@, name@) is None,
    {
        let mut i: usize = self.vars.len();
        let mut found: Option<Vec<char>> = None;
        // Scan from the back so that the earliest match wins.
        while i > 0
            invariant
                i <= self@.vars.len(),
                self@.vars.len() == self.vars@.len(),
                found matches Some(v) ==> env_lookup_from(self@, name@, i as int) == Some(v@),
                found is None ==> env_lookup_from(self@, name@, i as int) is None,
            decreases i,
        {
            i = i - 1;
            let n = chars_of(self.vars[i].0.as_str());
            let matched = if self.case_insensitive {
                eq_ignore_ascii_case(&n, name)
            } else {
                same(&n, name)
            };
            if matched {
                found = Some(chars_of(self.vars[i].1.as_str()));
            }
        }
        found
    }
}

/// Lookup of an environment variable by `%NAME%` expansion: the name as written, then
/// its uppercase, then its lowercase.
pub open spec fn env_get_any(env: EnvView, name: Seq<char>) -> Option<Seq<char>> {
    match env_lookup(env, name) {
        Some(v) => Some(v),
        None => match env_lookup(env, uppercase_of(name)) {
            Some(v) => Some(v),
            None => env_lookup(env, lowercase_of(name)),
        },
    }
}

fn env_get_any_exec(env: &EnvVars, name: &[char]) -> (r: Option<Vec<char>>)
    ensures
        r matches Some(v) ==> env_get_any(env@, name@) == Some(v@),
        r is None ==> env_get_any(env@, name@) is None,
{
    match env.get(name) {
        Some(v) => Some(v),
        None => {
            let up = to_uppercase(name);
            match env.get(&up) {
                Some(v) => Some(v),
                None => {
                    let low = to_lowercase(name);
                    env.get(&low)
                },
            }
        },
    }
}

/// Expansion of `%NAME%` references, left to right: a known variable is replaced by its
/// value, an unknown one is kept as written, and a lone `%` is kept.
pub open spec fn expand_vars(env: EnvView, rest: Seq<char>) -> Seq<char>
    decreases rest.len(),
{
    proof {
        lemma_first_occurrence(rest, seq!['%']);
    }
    match first_occurrence(rest, seq!['%']) {
        None => rest,
        Some(start) => {
            let after = rest.subrange(start + 1, rest.len() as int);
            proof {
                lemma_first_occurrence(after, seq!['%']);
            }
            match first_occurrence(after, seq!['%']) {
                Some(end) => {
                    let name = after.subrange(0, end);
                    let value = match env_get_any(env, name) {
                        Some(v) => v,
                        None => seq!['%'] + name + seq!['%'],
                    };
                    rest.subrange(0, start) + value + expand_vars(
                        env,
                        after.subrange(end + 1, after.len() as int),
                    )
                },
                None => rest.subrange(0, start) + seq!['%'] + after,
            }
        },
    }
}

fn expand_vars_exec(env: &EnvVars, raw: &[char]) -> (r: Vec<char>)
    ensures
        r@ == expand_vars(env@, raw@),
{
    let mut out: Vec<char> = Vec::new();
    let mut rest = slice_copy(raw, 0, raw.len());
    let pct = vec!['%'];
    assert(pct@ =~= seq!['%']);
    assert(rest@ =~= raw@);
    assert(out@ + expand_vars(env@, rest@) =~= expand_vars(env@, raw@));
    loop
        invariant
            pct@ == seq!['%'],
            out@ + expand_vars(env@, rest@) == expand_vars(env@, raw@),
        decreases rest@.len(),
    {
        proof {
            lemma_first_occurrence(rest@, seq!['%']);
        }
        let rl = rest.len();
        match find(&rest, &pct) {
            None => {
                push_all(&mut out, &rest);
                return out;
            },
            Some(start) => {
                assert(start + 1 <= rl);
                let head = slice_copy(&rest, 0, start);
                let after = slice_copy(&rest, start + 1, rest.len());
                proof {
                    lemma_first_occurrence(after@, seq!['%']);
                }
                let al = after.len();
                let ghost old_out = out@;
                match find(&after, &pct) {
                    Some(end) => {
                        assert(end + 1 <= al);
                        let name = slice_copy(&after, 0, end);
                        let tail = slice_copy(&after, end + 1, after.len());
                        push_all(&mut out, &head);
                        match env_get_any_exec(env, &name) {
                            Some(v) => {
                                push_all(&mut out, &v);
                            },
                            None => {
                                out.push('%');
                                push_all(&mut out, &name);
                                out.push('%');
                            },
                        }
                        assert(out@ + expand_vars(env@, tail@) =~= old_out + expand_vars(env@, rest@));
                        rest = tail;
                    },
                    None => {
                        push_all(&mut out, &head);
                        out.push('%');
                        push_all(&mut out, &after);
                        assert(out@ =~= old_out + expand_vars(env@, rest@));
                        return out;
                    },
                }
            },
        }
    }
}

/// Number of UTF-8 bytes of a character.
pub open spec fn utf8_width(c: char) -> int {
    if (c as u32) < 0x80 {
        1
    } else if (c as u32) < 0x800 {
        2
    } else if (c as u32) < 0x10000 {
        3
    } else {
        4
    }
}

/// The first two bytes of `s` as a string (`str::get(..2)`): `None` unless byte 2 is a
/// character boundary.
pub open spec fn first_two_bytes(s: Seq<char>) -> Option<Seq<char>> {
    if s.len() >= 2 && utf8_width(s[0]) == 1 && utf8_width(s[1]) == 1 {
        Some(s.subrange(0, 2))
    } else if s.len() >= 1 && utf8_width(s[0]) == 2 {
        Some(s.subrange(0, 1))
    } else {
        None
    }
}

/// The system drive: `SYSTEMDRIVE`, else the first two bytes of `SystemRoot`, else `C:`.
pub open spec fn system_drive_spec(env: EnvView) -> Seq<char> {
    match env_lookup(env, "SYSTEMDRIVE"@) {
        Some(d) => d,
        None => match env_lookup(env, "SystemRoot"@) {
            Some(r) => match first_two_bytes(r) {
                Some(p) => p,
                None => "C:"@,
            },
            None => "C:"@,
        },
    }
}

fn first_two_bytes_exec(s: &[char]) -> (r: Option<Vec<char>>)
    ensures
        r matches Some(v) ==> first_two_bytes(s@) == Some(v@),
        r is None ==> first_two_bytes(s@) is None,
{
    if s.len() >= 2 && (s[0] as u32) < 0x80 && (s[1] as u32) < 0x80 {
        Some(slice_copy(s, 0, 2))
    } else if s.len() >= 1 && (s[0] as u32) >= 0x80 && (s[0] as u32) < 0x800 {
        Some(slice_copy(s, 0, 1))
    } else {
        None
    }
}

/// The system drive, such as `C:`.
pub fn system_drive(env: &EnvVars) -> (r: Vec<char>)
    ensures
        r@ == system_drive_spec(env@),
{
    let sd = chars_of("SYSTEMDRIVE");
    match env.get(&sd) {
        Some(d) => d,
        None => {
            let sr = chars_of("SystemRoot");
            match env.get(&sr) {
                Some(root) => match first_two_bytes_exec(&root) {
                    Some(p) => p,
                    None => chars_of("C:"),
                },
                None => chars_of("C:"),
            }
        },
    }
}

/// Expansion of a target path: `%NAME%` references, then any remaining `%SYSTEMDRIVE%`
/// becomes the system drive, and a path starting with `\` gets the drive prepended.
pub open spec fn expand_env_spec(raw: Seq<char>, env: EnvView) -> Seq<char> {
    let drive = system_drive_spec(env);
    let s = replace_all(expand_vars(env, raw), "%SYSTEMDRIVE%"@, drive);
    if starts_with(s, "\\"@) {
        drive + s
    } else {
        s
    }
}

/// Expands a target path (characters).
pub fn expand_env_chars(raw: &[char], env: &EnvVars) -> (r: Vec<char>)
    ensures
        r@ == expand_env_spec(raw@, env@),
{
    let drive = system_drive(env);
    let vars = expand_vars_exec(env, raw);
    let token = chars_of("%SYSTEMDRIVE%");
    proof {
        reveal_strlit("%SYSTEMDRIVE%");
    }
    let s = replace_seq(&vars, &token, &drive);
    let bs = chars_of("\\");
    if has_prefix(&s, &bs) {
        let mut r = slice_copy(&drive, 0, drive.len());
        push_all(&mut r, &s);
        r
    } else {
        s
    }
}

/// Expands a target path.
pub fn expand_env(raw: &str, env: &EnvVars) -> (r: String)
    ensures
        r@ == expand_env_spec(raw@, env@),
{
    let c = chars_of(raw);
    let r = expand_env_chars(&c, env);
    string_of(&r)
}

/// The protected path prefixes, before expansion of `%SYSTEMDRIVE%` and `%PROGRAMDATA%`.
pub open spec fn protected_prefixes() -> Seq<Seq<char>> {
    seq![
        "%SYSTEMDRIVE%\\Windows\\Installer"@,
        "%SYSTEMDRIVE%\\Windows\\WinSxS"@,
        "%SYSTEMDRIVE%\\Windows\\SystemResources"@,
        "%SYSTEMDRIVE%\\Windows\\Fonts"@,
        "%SYSTEMDRIVE%\\Windows\\assembly"@,
        "%SYSTEMDRIVE%\\Windows\\Servicing"@,
        "%SYSTEMDRIVE%\\Program Files"@,
        "%SYSTEMDRIVE%\\Program Files (x86)"@,
        "%SYSTEMDRIVE%\\ProgramData\\Package Cache"@,
        "%SYSTEMDRIVE%\\Program Files\\WindowsApps"@,
        "%SYSTEMDRIVE%\\Users\\Default"@,
        "%SYSTEMDRIVE%\\Windows\\System32\\winevt\\Logs"@,
        "%SYSTEMDRIVE%\\Windows\\System32\\catroot2"@,
        "%SYSTEMDRIVE%\\Windows\\System32\\catroot"@,
        "%SYSTEMDRIVE%\\Windows\\System32\\spool\\drivers"@,
        "%SYSTEMDRIVE%\\Windows\\System32\\Tasks"@,
        "%SYSTEMDRIVE%\\Windows\\System32\\drivers\\etc"@,
        "%SYSTEMDRIVE%\\Windows\\System32\\CodeIntegrity"@,
        "%SYSTEMDRIVE%\\Windows\\System32\\Licensing"@,
        "%SYSTEMDRIVE%\\Windows\\System32\\config"@,
        "%SYSTEMDRIVE%\\Windows\\System32\\config\\RegBack"@,
        "%SYSTEMDRIVE%\\Windows\\System32\\GroupPolicy"@,
        "%SYSTEMDRIVE%\\Windows\\System32\\SMI\\Store\\Machine"@,
        "%SYSTEMDRIVE%\\System Volume Information"@,
        "%SYSTEMDRIVE%\\Windows\\CSC"@,
        "%SYSTEMDRIVE%\\Windows\\Registration"@,
        "%SYSTEMDRIVE%\\Config.Msi"@,
        "%SYSTEMDRIVE%\\ProgramData\\USOShared"@,
        "%SYSTEMDRIVE%\\Recovery"@,
        "%SYSTEMDRIVE%\\Boot"@,
        "%PROGRAMDATA%\\Microsoft\\Windows\\Containers"@,
    ]
}

/// The `i`-th protected prefix.
fn protected_prefix(i: usize) -> (p: &'static str)
    requires
        i < protected_prefixes().len(),
    ensures
        p@ == protected_prefixes()[i as int],
{
    match i {
        0 => "%SYSTEMDRIVE%\\Windows\\Installer",
        1 => "%SYSTEMDRIVE%\\Windows\\WinSxS",
        2 => "%SYSTEMDRIVE%\\Windows\\SystemResources",
        3 => "%SYSTEMDRIVE%\\Windows\\Fonts",
        4 => "%SYSTEMDRIVE%\\Windows\\assembly",
        5 => "%SYSTEMDRIVE%\\Windows\\Servicing",
        6 => "%SYSTEMDRIVE%\\Program Files",
        7 => "%SYSTEMDRIVE%\\Program Files (x86)",
        8 => "%SYSTEMDRIVE%\\ProgramData\\Package Cache",
        9 => "%SYSTEMDRIVE%\\Program Files\\WindowsApps",
        10 => "%SYSTEMDRIVE%\\Users\\Default",
        11 => "%SYSTEMDRIVE%\\Windows\\System32\\winevt\\Logs",
        12 => "%SYSTEMDRIVE%\\Windows\\System32\\catroot2",
        13 => "%SYSTEMDRIVE%\\Windows\\System32\\catroot",
        14 => "%SYSTEMDRIVE%\\Windows\\System32\\spool\\drivers",
        15 => "%SYSTEMDRIVE%\\Windows\\System32\\Tasks",
        16 => "%SYSTEMDRIVE%\\Windows\\System32\\drivers\\etc",
        17 => "%SYSTEMDRIVE%\\Windows\\System32\\CodeIntegrity",
        18 => "%SYSTEMDRIVE%\\Windows\\System32\\Licensing",
        19 => "%SYSTEMDRIVE%\\Windows\\System32\\config",
        20 => "%SYSTEMDRIVE%\\Windows\\System32\\config\\RegBack",
        21 => "%SYSTEMDRIVE%\\Windows\\System32\\GroupPolicy",
        22 => "%SYSTEMDRIVE%\\Windows\\System32\\SMI\\Store\\Machine",
        23 => "%SYSTEMDRIVE%\\System Volume Information",
        24 => "%SYSTEMDRIVE%\\Windows\\CSC",
        25 => "%SYSTEMDRIVE%\\Windows\\Registration",
        26 => "%SYSTEMDRIVE%\\Config.Msi",
        27 => "%SYSTEMDRIVE%\\ProgramData\\USOShared",
        28 => "%SYSTEMDRIVE%\\Recovery",
        29 => "%SYSTEMDRIVE%\\Boot",
        _ => "%PROGRAMDATA%\\Microsoft\\Windows\\Containers",
    }
}

/// `p` is a prefix of `s` that ends at a separator boundary: `s` equals `p` or continues
/// with `\` right after it.
pub open spec fn prefix_at_boundary(s: Seq<char>, p: Seq<char>) -> bool {
    starts_with(s, p) && (s.len() == p.len() || s[p.len() as int] == '\\')
}

/// A protected prefix with the drive and program-data directory substituted, trailing
/// `\` removed, lowercased.
pub open spec fn protected_pattern(p: Seq<char>, drive: Seq<char>, program_data: Seq<char>) -> Seq<char> {
    lowercase_of(
        trim_end_any(
            replace_all(replace_all(p, "%SYSTEMDRIVE%"@, drive), "%PROGRAMDATA%"@, program_data),
            seq!['\\'],
        ),
    )
}

/// Namespace prefix stripping applied before the prefix comparisons.
pub open spec fn strip_namespaces(s: Seq<char>) -> Seq<char> {
    trim_start_all(
        trim_start_all(trim_start_all(trim_start_all(s, "\\\\?\\"@), "\\\\.\\"@), "//?/"@),
        "\\??\\"@,
    )
}

/// A path with its namespace prefix stripped and `/` turned into `\`.
pub open spec fn normalized_path(path: Seq<char>) -> Seq<char> {
    replace_char(strip_namespaces(path), '/', '\\')
}

/// A lowercased normalised path with trailing spaces and dots removed, cut at the first
/// NUL.
pub open spec fn cut_form(lowered: Seq<char>) -> Seq<char> {
    before_char(trim_end_any(lowered, seq![' ', '.']), '\0')
}

/// Normal form of a path for the protection check: namespaces stripped, `/` turned into
/// `\`, lowercased, trailing spaces and dots removed, cut at the first NUL.
pub open spec fn protection_form(path: Seq<char>) -> Seq<char> {
    cut_form(lowercase_of(normalized_path(path)))
}

/// `protection_form` of an ASCII path, whose lowercase is the ASCII one.
pub open spec fn protection_form_ascii(path: Seq<char>) -> Seq<char> {
    cut_form(ascii_lower(normalized_path(path)))
}

/// The sleep-study directory on system drive `d` (lowercase), which is protected itself
/// (its files are not).
pub open spec fn sleepstudy_dir(d: Seq<char>) -> Seq<char> {
    d + "\\windows\\system32\\sleepstudy"@
}

/// `cleaned` lies under one of the protected prefixes.
pub open spec fn under_protected_prefix(cleaned: Seq<char>, d: Seq<char>, pd: Seq<char>) -> bool {
    exists|i: int|
        0 <= i < protected_prefixes().len() && prefix_at_boundary(
            cleaned,
            #[trigger] protected_pattern(protected_prefixes()[i], d, pd),
        )
}

/// The protection decision, given the path lowercased (`lower`) and its normal form
/// (`cleaned`): `GLOBALROOT` device paths, empty paths, paths under a protected prefix
/// (its drive and program-data tokens expanded from the same snapshot as the path is read
/// against), the system drive's root and its sleep-study directory.
pub open spec fn protected_decision(env: EnvView, lower: Seq<char>, cleaned: Seq<char>) -> bool {
    let d = lowercase_of(system_drive_spec(env));
    if starts_with(lower, "\\\\.\\globalroot\\"@) || starts_with(lower, "\\\\?\\globalroot\\"@) {
        true
    } else {
        if cleaned.len() == 0 {
            true
        } else {
            let pd = lowercase_of(
                match env_lookup(env, "PROGRAMDATA"@) {
                    Some(v) => v,
                    None => Seq::empty(),
                },
            );
            ||| under_protected_prefix(cleaned, d, pd)
            ||| cleaned == d + "\\"@
            ||| cleaned == sleepstudy_dir(d)
            ||| trim_end_any(cleaned, seq!['\\']) == sleepstudy_dir(d)
        }
    }
}

/// Protection decided from the path text alone (see `protected_decision`).
pub open spec fn protected_by_text(path: Seq<char>, env: EnvView) -> bool {
    protected_decision(env, lowercase_of(path), protection_form(path))
}

/// `protected_by_text` of an ASCII path, whose lowercase is the ASCII one; the
/// protection check computes exactly this on ASCII paths.
pub open spec fn protected_by_text_ascii(path: Seq<char>, env: EnvView) -> bool {
    protected_decision(env, ascii_lower(path), protection_form_ascii(path))
}

/// Every protected prefix, its `%SYSTEMDRIVE%` and `%PROGRAMDATA%` tokens expanded from
/// the same environment the path is read against, protects itself and every path below it
/// on a separator boundary. The comparison is on `protection_form`, which lowercases the
/// path and turns `/` into `\`, so the letter case and the separator a path is written
/// with do not matter.
pub proof fn law_protected_prefix_covers(path: Seq<char>, env: EnvView, i: int)
    requires
        0 <= i < protected_prefixes().len(),
        prefix_at_boundary(
            protection_form(path),
            protected_pattern(
                protected_prefixes()[i],
                lowercase_of(system_drive_spec(env)),
                lowercase_of(
                    match env_lookup(env, "PROGRAMDATA"@) {
                        Some(v) => v,
                        None => Seq::empty(),
                    },
                ),
            ),
        ),
    ensures
        protected_by_text(path, env),
{
}

/// Law: on an ASCII path that does not start with a separator (so no namespace prefix
/// applies), neither the letter case nor the separator it is written with changes the
/// protection decision: its ASCII uppercase, and the same path with `\` written as `/`,
/// are protected exactly when it is. (`is_protected_by_text` computes
/// `protected_by_text_ascii` on ASCII paths.)
pub proof fn law_case_and_separator_do_not_matter(p: Seq<char>, env: EnvView)
    requires
        is_ascii_text(p),
        p.len() > 0,
        p[0] != '\\',
        p[0] != '/',
    ensures
        is_ascii_text(ascii_upper(p)),
        is_ascii_text(replace_char(p, '\\', '/')),
        protected_by_text_ascii(ascii_upper(p), env) == protected_by_text_ascii(p, env),
        protected_by_text_ascii(replace_char(p, '\\', '/'), env) == protected_by_text_ascii(p, env),
{
    let u = ascii_upper(p);
    let sl = replace_char(p, '\\', '/');
    assert forall|i: int| 0 <= i < u.len() implies (#[trigger] u[i] as u32) < 128 by {
        assert((#[trigger] p[i] as u32) < 128);
    }
    assert forall|i: int| 0 <= i < sl.len() implies (#[trigger] sl[i] as u32) < 128 by {
        assert((p[i] as u32) < 128);
    }
    lemma_no_namespace(p);
    lemma_no_namespace(u);
    lemma_no_namespace(sl);
    let np = normalized_path(p);
    assert(ascii_lower(normalized_path(u)) =~= ascii_lower(np));
    assert(ascii_lower(normalized_path(sl)) =~= ascii_lower(np));
    assert(protection_form_ascii(u) == protection_form_ascii(p));
    assert(protection_form_ascii(sl) == protection_form_ascii(p));
    lemma_not_globalroot(ascii_lower(p));
    lemma_not_globalroot(ascii_lower(u));
    lemma_not_globalroot(ascii_lower(sl));
}

proof fn lemma_not_globalroot(l: Seq<char>)
    requires
        l.len() > 0,
        l[0] != '\\',
    ensures
        !starts_with(l, "\\\\.\\globalroot\\"@),
        !starts_with(l, "\\\\?\\globalroot\\"@),
{
    reveal_strlit("\\\\.\\globalroot\\");
    reveal_strlit("\\\\?\\globalroot\\");
    if starts_with(l, "\\\\.\\globalroot\\"@) {
        assert(l.subrange(0, 15)[0] == l[0]);
    }
    if starts_with(l, "\\\\?\\globalroot\\"@) {
        assert(l.subrange(0, 15)[0] == l[0]);
    }
}

proof fn lemma_no_namespace(p: Seq<char>)
    requires
        p.len() > 0,
        p[0] != '\\',
        p[0] != '/',
    ensures
        strip_namespaces(p) == p,
{
    assert(!starts_with(p, "\\\\?\\"@)) by {
        reveal_strlit("\\\\?\\");
        if starts_with(p, "\\\\?\\"@) {
            assert(p.subrange(0, 4)[0] == p[0]);
        }
    }
    assert(!starts_with(p, "\\\\.\\"@)) by {
        reveal_strlit("\\\\.\\");
        if starts_with(p, "\\\\.\\"@) {
            assert(p.subrange(0, 4)[0] == p[0]);
        }
    }
    assert(!starts_with(p, "//?/"@)) by {
        reveal_strlit("//?/");
        if starts_with(p, "//?/"@) {
            assert(p.subrange(0, 4)[0] == p[0]);
        }
    }
    assert(!starts_with(p, "\\??\\"@)) by {
        reveal_strlit("\\??\\");
        if starts_with(p, "\\??\\"@) {
            assert(p.subrange(0, 4)[0] == p[0]);
        }
    }
}

fn prefix_at_boundary_exec(s: &[char], p: &[char]) -> (b: bool)
    ensures
        b == prefix_at_boundary(s@, p@),
{
    if !has_prefix(s, p) {
        return false;
    }
    s.len() == p.len() || s[p.len()] == '\\'
}

proof fn lemma_trim_ascii(s: Seq<char>, p: Seq<char>)
    requires
        is_ascii_text(s),
    ensures
        is_ascii_text(trim_start_all(s, p)),
{
    lemma_trim_start_all_suffix(s, p);
    let t = trim_start_all(s, p);
    assert forall|i: int| 0 <= i < t.len() implies (#[trigger] t[i] as u32) < 128 by {
        assert(t[i] == s[s.len() - t.len() + i]);
    }
}

proof fn lemma_normalized_ascii(path: Seq<char>)
    requires
        is_ascii_text(path),
    ensures
        is_ascii_text(normalized_path(path)),
{
    let a = trim_start_all(path, "\\\\?\\"@);
    lemma_trim_ascii(path, "\\\\?\\"@);
    let b = trim_start_all(a, "\\\\.\\"@);
    lemma_trim_ascii(a, "\\\\.\\"@);
    let c = trim_start_all(b, "//?/"@);
    lemma_trim_ascii(b, "//?/"@);
    lemma_trim_ascii(c, "\\??\\"@);
    let d = strip_namespaces(path);
    let e = normalized_path(path);
    assert forall|i: int| 0 <= i < e.len() implies (#[trigger] e[i] as u32) < 128 by {
        assert(e[i] == (if d[i] == '/' { '\\' } else { d[i] }));
    }
}

fn protection_form_exec(path: &[char]) -> (r: Vec<char>)
    ensures
        r@ == protection_form(path@),
        is_ascii_text(path@) ==> r@ == protection_form_ascii(path@),
{
    let p1 = chars_of("\\\\?\\");
    let p2 = chars_of("\\\\.\\");
    let p3 = chars_of("//?/");
    let p4 = chars_of("\\??\\");
    let a = strip_prefix_all(path, &p1);
    let b = strip_prefix_all(&a, &p2);
    let c = strip_prefix_all(&b, &p3);
    let d = strip_prefix_all(&c, &p4);
    let e = map_char(&d, '/', '\\');
    proof {
        if is_ascii_text(path@) {
            lemma_normalized_ascii(path@);
            assert(e@ == normalized_path(path@));
        }
    }
    let f = to_lowercase(&e);
    let set = vec![' ', '.'];
    assert(set@ =~= seq![' ', '.']);
    let g = strip_suffix_any(&f, &set);
    take_before(&g, '\0')
}

fn protected_pattern_exec(i: usize, drive: &[char], program_data: &[char]) -> (r: Vec<char>)
    requires
        i < protected_prefixes().len(),
    ensures
        r@ == protected_pattern(protected_prefixes()[i as int], drive@, program_data@),
{
    let p = chars_of(protected_prefix(i));
    let t1 = chars_of("%SYSTEMDRIVE%");
    let t2 = chars_of("%PROGRAMDATA%");
    proof {
        reveal_strlit("%SYSTEMDRIVE%");
        reveal_strlit("%PROGRAMDATA%");
    }
    let a = replace_seq(&p, &t1, drive);
    let b = replace_seq(&a, &t2, program_data);
    let bs = vec!['\\'];
    assert(bs@ =~= seq!['\\']);
    let c = strip_suffix_any(&b, &bs);
    to_lowercase(&c)
}

/// The protection decision on the path text (see `protected_by_text`); on an ASCII path
/// it is `protected_by_text_ascii`.
pub fn is_protected_by_text(path: &str, env: &EnvVars) -> (b: bool)
    ensures
        b == protected_by_text(path@, env@),
        is_ascii_text(path@) ==> b == protected_by_text_ascii(path@, env@),
{
    let raw = chars_of(path);
    let drive = system_drive(env);
    let d = to_lowercase(&drive);
    let lower = to_lowercase(&raw);
    let g1 = chars_of("\\\\.\\globalroot\\");
    let g2 = chars_of("\\\\?\\globalroot\\");
    if has_prefix(&lower, &g1) || has_prefix(&lower, &g2) {
        return true;
    }
    assert(!(starts_with(lower@, "\\\\.\\globalroot\\"@) || starts_with(lower@, "\\\\?\\globalroot\\"@)));
    let cleaned = protection_form_exec(&raw);
    if cleaned.len() == 0 {
        return true;
    }
    let pd_name = chars_of("PROGRAMDATA");
    let pd_raw = match env.get(&pd_name) {
        Some(v) => v,
        None => Vec::new(),
    };
    let ghost pd_view = match env_lookup(env@, "PROGRAMDATA"@) {
        Some(v) => v,
        None => Seq::<char>::empty(),
    };
    assert(pd_raw@ =~= pd_view);
    let pd = to_lowercase(&pd_raw);
    let mut i: usize = 0;
    let n: usize = 31;
    assert(protected_prefixes().len() == 31);
    while i < n
        invariant
            n == protected_prefixes().len(),
            i <= n,
            d@ == lowercase_of(system_drive_spec(env@)),
            cleaned@ == protection_form(path@),
            is_ascii_text(path@) ==> lowercase_of(path@) == ascii_lower(path@) && protection_form(
                path@,
            ) == protection_form_ascii(path@),
            pd@ == lowercase_of(pd_view),
            pd_view == (match env_lookup(env@, "PROGRAMDATA"@) {
                Some(v) => v,
                None => Seq::<char>::empty(),
            }),
            !(starts_with(lowercase_of(path@), "\\\\.\\globalroot\\"@) || starts_with(lowercase_of(path@), "\\\\?\\globalroot\\"@)),
            protection_form(path@).len() != 0,
            forall|j: int|
                0 <= j < i ==> !prefix_at_boundary(
                    cleaned@,
                    #[trigger] protected_pattern(protected_prefixes()[j], d@, pd@),
                ),
        decreases n - i,
    {
        let pat = protected_pattern_exec(i, &d, &pd);
        if prefix_at_boundary_exec(&cleaned, &pat) {
            assert(prefix_at_boundary(
                cleaned@,
                protected_pattern(protected_prefixes()[i as int], d@, pd@),
            ));
            assert(under_protected_prefix(cleaned@, d@, pd@));
            return true;
        }
        i = i + 1;
    }
    let mut root = slice_copy(&d, 0, d.len());
    assert(root@ =~= d@);
    push_str(&mut root, "\\");
    if same(&cleaned, &root) {
        return true;
    }
    let mut sleep = slice_copy(&d, 0, d.len());
    assert(sleep@ =~= d@);
    push_str(&mut sleep, "\\windows\\system32\\sleepstudy");
    if same(&cleaned, &sleep) {
        return true;
    }
    let bs = vec!['\\'];
    assert(bs@ =~= seq!['\\']);
    let trimmed = strip_suffix_any(&cleaned, &bs);
    same(&trimmed, &sleep)
}

/// A path that has a final component under the path syntax of every platform, so that
/// it ends in neither a root nor a prefix: a relative path (non-empty, not starting
/// with a separator, no `:` anywhere), or a drive path `X:\...` / `X:/...` whose last
/// character is neither a separator, a dot nor a colon.
pub open spec fn surely_has_parent(p: Seq<char>) -> bool {
    ||| (p.len() > 0 && p[0] != '\\' && p[0] != '/' && !p.contains(':'))
    ||| (p.len() >= 4 && (('a' <= p[0] && p[0] <= 'z') || ('A' <= p[0] && p[0] <= 'Z'))
        && p[1] == ':' && (p[2] == '\\' || p[2] == '/') && p.last() != '\\' && p.last()
        != '/' && p.last() != '.' && p.last() != ':')
}

/// The text after the last `/` of `p`.
pub open spec fn after_last_slash(p: Seq<char>) -> Seq<char>
    decreases p.len(),
{
    if p.len() == 0 {
        p
    } else if p.last() == '/' {
        Seq::empty()
    } else {
        after_last_slash(p.drop_last()).push(p.last())
    }
}

/// The last component of a path whose syntax is the same on every platform: a text with
/// no `\\` and no `:`, not starting with `//` (so no prefix and only `/` separates
/// components), whose text after the last `/` is neither empty, `.` nor `..`. That text
/// is the path's final component; other paths give none here.
pub open spec fn simple_last_segment(p: Seq<char>) -> Option<Seq<char>> {
    let seg = after_last_slash(p);
    if !p.contains('\\') && !p.contains(':') && !(p.len() >= 2 && p[0] == '/' && p[1] == '/')
        && seg.len() > 0 && seg != seq!['.'] && seg != seq!['.', '.'] {
        Some(seg)
    } else {
        None
    }
}

/// Whether std's `Path::parent` of `path` is `None`. Its documentation: `None` when the
/// path terminates in a root or prefix, or is empty; otherwise the path without its final
/// component (`Some("")` for a relative path of one component). So a path of
/// `surely_has_parent`, and one whose final component `simple_last_segment` gives, has a
/// parent. Nothing is stated of other paths: the answer depends on the platform's path
/// syntax (a drive root such as `C:\` has no parent on Windows).
#[verifier::external_body]
pub(crate) fn path_has_no_parent(path: &str) -> (r: bool)
    ensures
        surely_has_parent(path@) ==> !r,
        simple_last_segment(path@) is Some ==> !r,
{
    std::path::Path::new(path).parent().is_none()
}

/// Whether a path is protected from deletion, given whether it has a parent directory.
pub fn is_path_protected_given(path: &str, env: &EnvVars, no_parent: bool) -> (b: bool)
    ensures
        b == (protected_by_text(path@, env@) || no_parent),
        is_ascii_text(path@) ==> protected_by_text(path@, env@) == protected_by_text_ascii(path@, env@),
{
    is_protected_by_text(path, env) || no_parent
}

/// Whether a path is protected from deletion. Every path protected by its text is;
/// beyond that, a path without parent directory (a root) is. A path that has a parent
/// under every platform's syntax is protected exactly when its text protects it.
pub fn is_path_protected(path: &str, env: &EnvVars) -> (b: bool)
    ensures
        protected_by_text(path@, env@) ==> b,
        surely_has_parent(path@) ==> b == protected_by_text(path@, env@),
        is_ascii_text(path@) ==> protected_by_text(path@, env@) == protected_by_text_ascii(path@, env@),
{
    let no_parent = path_has_no_parent(path);
    is_path_protected_given(path, env, no_parent)
}


/// A path normalised for the scope check: lowercased, `\\?\`, `\\.\` and `//?/`
/// prefixes stripped, trailing spaces and dots removed.
pub open spec fn scope_form(path: Seq<char>) -> Seq<char> {
    trim_end_any(
        trim_start_all(
            trim_start_all(trim_start_all(lowercase_of(path), "\\\\?\\"@), "\\\\.\\"@),
            "//?/"@,
        ),
        seq![' ', '.'],
    )
}

/// The directory a target covers: its expanded path, lowercased, trailing `\` removed.
pub open spec fn target_root(target_path: Seq<char>, env: EnvView) -> Seq<char> {
    trim_end_any(lowercase_of(expand_env_spec(target_path, env)), seq!['\\'])
}

/// `path` lies inside (or is) the directory of one of `targets`, on a separator boundary.
pub open spec fn allowed_spec(path: Seq<char>, targets: Seq<ScanTarget>, env: EnvView) -> bool {
    exists|i: int|
        0 <= i < targets.len() && prefix_at_boundary(
            scope_form(path),
            #[trigger] target_root(targets[i].path@, env),
        )
}

fn target_root_exec(target_path: &str, env: &EnvVars) -> (r: Vec<char>)
    ensures
        r@ == target_root(target_path@, env@),
{
    let raw = chars_of(target_path);
    let expanded = expand_env_chars(&raw, env);
    let lower = to_lowercase(&expanded);
    let bs = vec!['\\'];
    assert(bs@ =~= seq!['\\']);
    strip_suffix_any(&lower, &bs)
}

fn scope_form_exec(path: &str) -> (r: Vec<char>)
    ensures
        r@ == scope_form(path@),
{
    let raw = chars_of(path);
    let lower = to_lowercase(&raw);
    let p1 = chars_of("\\\\?\\");
    let p2 = chars_of("\\\\.\\");
    let p3 = chars_of("//?/");
    let a = strip_prefix_all(&lower, &p1);
    let b = strip_prefix_all(&a, &p2);
    let c = strip_prefix_all(&b, &p3);
    let set = vec![' ', '.'];
    assert(set@ =~= seq![' ', '.']);
    strip_suffix_any(&c, &set)
}

/// Law: no path lies inside an empty target list, and a path lies inside the
/// concatenation of two target lists exactly when it lies inside one of them.
pub proof fn law_allowed_empty_and_concat(path: Seq<char>, a: Seq<ScanTarget>, b: Seq<ScanTarget>, env: EnvView)
    ensures
        !allowed_spec(path, Seq::empty(), env),
        allowed_spec(path, a + b, env) == (allowed_spec(path, a, env) || allowed_spec(path, b, env)),
{
    let ab = a + b;
    if allowed_spec(path, ab, env) {
        let i = choose|i: int|
            0 <= i < ab.len() && prefix_at_boundary(scope_form(path), #[trigger] target_root(ab[i].path@, env));
        if i < a.len() {
            assert(ab[i] == a[i]);
        } else {
            assert(ab[i] == b[i - a.len()]);
        }
    }
    if allowed_spec(path, a, env) {
        let i = choose|i: int|
            0 <= i < a.len() && prefix_at_boundary(scope_form(path), #[trigger] target_root(a[i].path@, env));
        assert(ab[i] == a[i]);
    }
    if allowed_spec(path, b, env) {
        let i = choose|i: int|
            0 <= i < b.len() && prefix_at_boundary(scope_form(path), #[trigger] target_root(b[i].path@, env));
        assert(ab[i + a.len()] == b[i]);
    }
}

/// Whether `path` lies inside one of the scan targets (with separator boundary and
/// Win32 namespace prefixes stripped); `env` expands the target paths.
pub fn is_path_allowed(path: &str, targets: &[ScanTarget], env: &EnvVars) -> (b: bool)
    ensures
        b == allowed_spec(path@, targets@, env@),
{
    let form = scope_form_exec(path);
    let mut i: usize = 0;
    while i < targets.len()
        invariant
            i <= targets@.len(),
            form@ == scope_form(path@),
            forall|j: int|
                0 <= j < i ==> !prefix_at_boundary(
                    form@,
                    #[trigger] target_root(targets@[j].path@, env@),
                ),
        decreases targets@.len() - i,
    {
        let root = target_root_exec(targets[i].path.as_str(), env);
        if prefix_at_boundary_exec(&form, &root) {
            assert(prefix_at_boundary(form@, target_root(targets@[i as int].path@, env@)));
            return true;
        }
        i = i + 1;
    }
    false
}

/// The expanded `raw_pattern` (lowercased, trailing `\` removed) is a prefix of the
/// canonical path (namespace prefixes stripped, lowercased). No separator boundary is
/// required here.
pub open spec fn env_path_matches(canon: Seq<char>, raw_pattern: Seq<char>, env: EnvView) -> bool {
    let expected = trim_end_any(lowercase_of(expand_env_spec(raw_pattern, env)), seq!['\\']);
    let stripped = trim_start_all(
        trim_start_all(trim_start_all(canon, "\\\\?\\"@), "\\\\.\\"@),
        "//?/"@,
    );
    starts_with(lowercase_of(stripped), expected)
}

/// Whether a canonical path still lies under the expansion of the pattern it came from
/// (guards against environment variables pointing elsewhere).
pub fn verify_env_path_inner(canon: &str, raw_pattern: &str, env: &EnvVars) -> (b: bool)
    ensures
        b == env_path_matches(canon@, raw_pattern@, env@),
{
    let expected = target_root_exec(raw_pattern, env);
    let raw = chars_of(canon);
    let p1 = chars_of("\\\\?\\");
    let p2 = chars_of("\\\\.\\");
    let p3 = chars_of("//?/");
    let a = strip_prefix_all(&raw, &p1);
    let b = strip_prefix_all(&a, &p2);
    let c = strip_prefix_all(&b, &p3);
    let lower = to_lowercase(&c);
    has_prefix(&lower, &expected)
}

} // verus!
