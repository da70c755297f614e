//! Startup items: third-party applications started at logon (registry `Run` keys and
//! startup folders), and the rules for listing, disabling and re-enabling them. The
//! registry and file system work is the caller's; this module holds the naming rules,
//! command parsing, system-item filtering, de-duplication and the small encodings used
//! by the elevated helper process.

use vstd::prelude::*;
use crate::cleaner::join_spec;
use crate::disk::{lemma_seq_lt_transitive, path_lt, seq_lt};
use crate::paths::{env_lookup, lowercase_of, to_lowercase, utf8_width, EnvVars, EnvView};
use crate::text::{
    ascii_lower, before_char, chars_of, contains, ends_with, eq_ignore_ascii_case, find,
    first_occurrence, has_sub, lemma_first_occurrence, map_char, occurs_at, push_all, push_str,
    replace_all_ci, replace_char, replace_seq_ci, same, slice_copy, starts_with, string_of,
    strip_prefix_any, strip_suffix_any, take_before, trim_end_any,
    trim_start_any,
};

verus! {

/// Where a startup item is registered.
#[derive(Clone, Copy, Debug, PartialEq, Eq, Structural)]
pub enum StartupSource {
    /// The current user's registry `Run` key (changeable without elevation).
    RegistryUser,
    /// The machine's registry `Run` keys (changes need administrator rights).
    RegistryMachine,
    /// The user's startup folder.
    FolderUser,
    /// The common startup folder (changes need administrator rights).
    FolderMachine,
}

/// A third-party startup item.
#[derive(Clone, Debug)]
pub struct StartupItem {
    /// Display name (registry value name, or folder file name without extension).
    pub name: String,
    /// Start command (registry items; empty for folder items).
    pub command: String,
    /// The executable path parsed from the command (best effort, may be empty).
    pub exe_path: String,
    pub source: StartupSource,
    /// Disabling needs administrator rights.
    pub requires_admin: bool,
    /// Enabled (false: disabled, can be enabled again).
    pub enabled: bool,
    /// Small application icon as an ICO data URL.
    pub icon: Option<String>,
    /// The stored name when it differs from `name` (a legacy `x_disabled` value, or the
    /// full file name).
    pub reg_name: Option<String>,
    /// The registry value was `REG_EXPAND_SZ` (kept when restoring).
    pub expand_sz: bool,
}

/// The action of the elevated helper process.
#[derive(Clone, Copy, Debug, PartialEq, Eq, Structural)]
pub enum StartupAction {
    Disable,
    Enable,
}

impl StartupAction {
    /// The command-line name of an action.
    pub open spec fn name_spec(self) -> Seq<char> {
        match self {
            StartupAction::Disable => "disable"@,
            StartupAction::Enable => "enable"@,
        }
    }

    /// The action of a command-line name.
    pub open spec fn parse_spec(s: Seq<char>) -> Option<StartupAction> {
        if s == "disable"@ {
            Some(StartupAction::Disable)
        } else if s == "enable"@ {
            Some(StartupAction::Enable)
        } else {
            None
        }
    }

    /// The action's command-line name.
    pub fn as_str(self) -> (s: &'static str)
        ensures
            s@ == self.name_spec(),
    {
        match self {
            StartupAction::Disable => "disable",
            StartupAction::Enable => "enable",
        }
    }

    /// The action named on the command line.
    pub fn parse(s: &str) -> (r: Option<Self>)
        ensures
            r == Self::parse_spec(s@),
    {
        let c = chars_of(s);
        proof {
            reveal_strlit("disable");
            reveal_strlit("enable");
            assert("enable"@.len() != "disable"@.len());
        }
        if same(&c, &chars_of("disable")) {
            Some(StartupAction::Disable)
        } else if same(&c, &chars_of("enable")) {
            Some(StartupAction::Enable)
        } else {
            None
        }
    }
}

/// `name` with `_disabled` suffixes removed one after the other, as long as something
/// remains before the suffix (legacy names left by other tools, even doubled).
pub open spec fn restored_name(name: Seq<char>) -> Seq<char>
    decreases name.len(),
{
    if ends_with(name, "_disabled"@) && name.len() > 9 {
        restored_name(name.subrange(0, name.len() - 9))
    } else {
        name
    }
}

/// The registry value name to restore an item under.
pub fn restore_reg_name(reg_name: &str) -> (r: String)
    ensures
        r@ == restored_name(reg_name@),
{
    let suffix = chars_of("_disabled");
    proof {
        reveal_strlit("_disabled");
    }
    let mut name = chars_of(reg_name);
    loop
        invariant
            suffix@ == "_disabled"@,
            suffix@.len() == 9,
            restored_name(reg_name@) == restored_name(name@),
        decreases name@.len(),
    {
        if crate::text::has_suffix(&name, &suffix) && name.len() > suffix.len() {
            name = slice_copy(&name, 0, name.len() - suffix.len());
        } else {
            return string_of(&name);
        }
    }
}

/// Whether registry value `value_name` registers the application `item_name` (its own
/// name or a `_disabled` variant).
pub fn is_same_reg_app(value_name: &str, item_name: &str) -> (b: bool)
    ensures
        b == (restored_name(value_name@) == item_name@),
{
    let r = restore_reg_name(value_name);
    same(&chars_of(r.as_str()), &chars_of(item_name))
}

/// The name a startup-folder file gets when disabled: `.disabled` appended, so that its
/// extension is no longer executable (`WeChat.lnk` becomes `WeChat.lnk.disabled`).
pub fn disable_file_name(fname: &str) -> (r: String)
    ensures
        r@ == fname@ + ".disabled"@,
{
    let mut v = chars_of(fname);
    push_str(&mut v, ".disabled");
    string_of(&v)
}

/// Position of the last `.` of `s`, if any.
pub open spec fn last_dot(s: Seq<char>) -> Option<int>
    decreases s.len(),
{
    if s.len() == 0 {
        None
    } else if s.last() == '.' {
        Some(s.len() - 1)
    } else {
        last_dot(s.drop_last())
    }
}

/// The extension of a file name, by std's rules: none for an empty name or `..`, none
/// without a `.` after the first character, else the text after the last `.`.
pub open spec fn extension_of(f: Seq<char>) -> Option<Seq<char>> {
    if f.len() == 0 || f == ".."@ {
        None
    } else {
        match last_dot(f) {
            Some(i) => if i == 0 {
                None
            } else {
                Some(f.subrange(i + 1, f.len() as int))
            },
            None => None,
        }
    }
}

/// The stem of a file name, by std's rules: none for an empty name or `..`, the whole
/// name without a `.` after the first character, else the text before the last `.`.
pub open spec fn stem_of(f: Seq<char>) -> Option<Seq<char>> {
    if f.len() == 0 || f == ".."@ {
        None
    } else {
        match last_dot(f) {
            Some(i) => if i == 0 {
                Some(f)
            } else {
                Some(f.subrange(0, i))
            },
            None => Some(f),
        }
    }
}

/// A plain file name: no path separator and no drive colon.
pub open spec fn plain_name(f: Seq<char>) -> bool {
    !f.contains('/') && !f.contains('\\') && !f.contains(':')
}

fn last_dot_exec(s: &[char]) -> (r: Option<usize>)
    ensures
        r matches Some(i) ==> last_dot(s@) == Some(i as int) && i < s@.len(),
        r is None ==> last_dot(s@) is None,
{
    let mut i: usize = s.len();
    assert(s@.subrange(0, s@.len() as int) =~= s@);
    while i > 0
        invariant
            i <= s@.len(),
            last_dot(s@) == last_dot(s@.subrange(0, i as int)),
        decreases i,
    {
        let ghost pre = s@.subrange(0, i as int);
        if s[i - 1] == '.' {
            return Some(i - 1);
        }
        assert(pre.drop_last() =~= s@.subrange(0, i - 1));
        i = i - 1;
    }
    None
}

fn is_dotdot(f: &[char]) -> (b: bool)
    ensures
        b == (f@ == ".."@),
{
    same(f, &chars_of(".."))
}

fn extension_exec(f: &[char]) -> (r: Option<Vec<char>>)
    ensures
        r matches Some(e) ==> extension_of(f@) == Some(e@),
        r is None ==> extension_of(f@) is None,
{
    if f.len() == 0 || is_dotdot(f) {
        return None;
    }
    match last_dot_exec(f) {
        Some(i) => if i == 0 {
            None
        } else {
            Some(slice_copy(f, i + 1, f.len()))
        },
        None => None,
    }
}

fn stem_exec(f: &[char]) -> (r: Option<Vec<char>>)
    ensures
        r matches Some(e) ==> stem_of(f@) == Some(e@),
        r is None ==> stem_of(f@) is None,
{
    if f.len() == 0 || is_dotdot(f) {
        return None;
    }
    match last_dot_exec(f) {
        Some(i) => if i == 0 {
            Some(slice_copy(f, 0, f.len()))
        } else {
            Some(slice_copy(f, 0, i))
        },
        None => {
            assert(f@.subrange(0, f@.len() as int) =~= f@);
            Some(slice_copy(f, 0, f.len()))
        },
    }
}

fn plain_name_exec(f: &[char]) -> (b: bool)
    ensures
        b == plain_name(f@),
{
    !crate::text::char_in('/', f) && !crate::text::char_in('\\', f) && !crate::text::char_in(':', f)
}

/// A file name is disabled when its extension is `disabled` (any case).
pub open spec fn disabled_file_spec(f: Seq<char>) -> bool {
    extension_of(f) matches Some(e) && ascii_lower(e) == ascii_lower("disabled"@)
}

/// `Path::extension` of a name that is not a plain file name (a path): the part of the
/// final component after its last `.`, so a piece of the text. Which component is final
/// depends on the platform's path syntax, so nothing more is stated.
#[verifier::external_body]
fn path_extension(f: &str) -> (r: Option<String>)
    ensures
        r matches Some(x) ==> contains(f@, x@),
{
    std::path::Path::new(f).extension().map(|e| e.to_string_lossy().into_owned())
}

/// `Path::file_stem` of a name that is not a plain file name (a path): the final
/// component without its extension, so a piece of the text. Which component is final
/// depends on the platform's path syntax, so nothing more is stated.
#[verifier::external_body]
fn path_file_stem(f: &str) -> (r: Option<String>)
    ensures
        r matches Some(x) ==> contains(f@, x@),
{
    std::path::Path::new(f).file_stem().map(|e| e.to_string_lossy().into_owned())
}

fn extension_any(f: &str) -> (r: Option<Vec<char>>)
    ensures
        plain_name(f@) ==> (r matches Some(e) ==> extension_of(f@) == Some(e@)) && (r is None
            ==> extension_of(f@) is None),
{
    let c = chars_of(f);
    if plain_name_exec(&c) {
        extension_exec(&c)
    } else {
        match path_extension(f) {
            Some(e) => Some(chars_of(e.as_str())),
            None => None,
        }
    }
}

fn stem_any(f: &str) -> (r: Option<Vec<char>>)
    ensures
        plain_name(f@) ==> (r matches Some(e) ==> stem_of(f@) == Some(e@)) && (r is None
            ==> stem_of(f@) is None),
{
    let c = chars_of(f);
    if plain_name_exec(&c) {
        stem_exec(&c)
    } else {
        match path_file_stem(f) {
            Some(e) => Some(chars_of(e.as_str())),
            None => None,
        }
    }
}

/// Whether a startup-folder file name is in disabled form (extension `.disabled`; a
/// `WeChat.disabled.lnk` still runs and counts as enabled). Stated for plain file names.
pub fn is_disabled_file(fname: &str) -> (b: bool)
    ensures
        plain_name(fname@) ==> b == disabled_file_spec(fname@),
{
    match extension_any(fname) {
        Some(e) => eq_ignore_ascii_case(&e, &chars_of("disabled")),
        None => false,
    }
}

/// The name a disabled startup-folder file had before it was disabled: a stem ending in `.disabled`
/// loses it (`X.disabled.ext` becomes `X.ext`, `X.disabled` becomes `X`), a
/// `.disabled` extension (any case) is dropped, anything else is kept.
pub open spec fn enabled_name_spec(f: Seq<char>) -> Seq<char> {
    let stem = match stem_of(f) {
        Some(s) => s,
        None => Seq::empty(),
    };
    if ends_with(stem, ".disabled"@) {
        let rest = stem.subrange(0, stem.len() - ".disabled"@.len());
        match extension_of(f) {
            Some(e) => rest + "."@ + e,
            None => rest,
        }
    } else if disabled_file_spec(f) {
        stem
    } else {
        f
    }
}

/// The name a disabled startup-folder file gets back. Stated for plain file names.
pub fn enable_file_name(fname: &str) -> (r: String)
    ensures
        plain_name(fname@) ==> r@ == enabled_name_spec(fname@),
{
    let stem = match stem_any(fname) {
        Some(s) => s,
        None => Vec::new(),
    };
    let suffix = chars_of(".disabled");
    proof {
        reveal_strlit(".disabled");
    }
    if crate::text::has_suffix(&stem, &suffix) {
        let rest = slice_copy(&stem, 0, stem.len() - suffix.len());
        let mut out = rest;
        match extension_any(fname) {
            Some(e) => {
                out.push('.');
                push_all(&mut out, &e);
                assert(out@ =~= rest@ + "."@ + e@) by {
                    reveal_strlit(".");
                }
            },
            None => {},
        }
        string_of(&out)
    } else {
        let disabled = match extension_any(fname) {
            Some(e) => eq_ignore_ascii_case(&e, &chars_of("disabled")),
            None => false,
        };
        if disabled {
            string_of(&stem)
        } else {
            fname.to_owned()
        }
    }
}

proof fn lemma_last_dot_after(p: Seq<char>, t: Seq<char>)
    requires
        !t.contains('.'),
    ensures
        last_dot(p + t) == last_dot(p),
    decreases t.len(),
{
    if t.len() > 0 {
        assert((p + t).drop_last() =~= p + t.drop_last());
        assert((p + t).last() == t.last());
        assert(t.drop_last().contains('.') ==> t.contains('.')) by {
            if t.drop_last().contains('.') {
                let k = choose|k: int| 0 <= k < t.drop_last().len() && t.drop_last()[k] == '.';
                assert(t[k] == '.');
            }
        }
        assert(t.last() != '.') by {
            assert(t[t.len() - 1] == t.last());
        }
        lemma_last_dot_after(p, t.drop_last());
    } else {
        assert(p + t =~= p);
    }
}

/// Law: disabling a startup-folder file and enabling it again gives back its name; the
/// disabled name of a non-empty name reads as disabled, and a plain name stays plain.
pub proof fn law_disable_enable_roundtrip(f: Seq<char>)
    ensures
        f.len() > 0 ==> disabled_file_spec(f + ".disabled"@),
        enabled_name_spec(f + ".disabled"@) == f,
        plain_name(f) ==> plain_name(f + ".disabled"@),
{
    let g = f + ".disabled"@;
    reveal_strlit(".");
    reveal_strlit(".disabled");
    reveal_strlit("disabled");
    reveal_strlit("..");
    assert(g =~= (f + "."@) + "disabled"@);
    assert(!"disabled"@.contains('.')) by {
        if "disabled"@.contains('.') {
            let k = choose|k: int| 0 <= k < "disabled"@.len() && "disabled"@[k] == '.';
            assert("disabled"@[k] == '.');
        }
    }
    lemma_last_dot_after(f + "."@, "disabled"@);
    assert((f + "."@).last() == '.');
    assert(last_dot(f + "."@) == Some(f.len() as int));
    assert(last_dot(g) == Some(f.len() as int));
    assert(g != ".."@) by {
        assert(g.len() != ".."@.len());
    }
    assert(g.subrange(f.len() + 1int, g.len() as int) =~= "disabled"@);
    assert(g.subrange(0, f.len() as int) =~= f);
    if f.len() == 0 {
        assert(g =~= ".disabled"@);
        assert(extension_of(g) is None);
        assert(stem_of(g) == Some(g));
        assert(ends_with(g, ".disabled"@)) by {
            assert(g.subrange(0, 9) =~= ".disabled"@);
        }
        assert(g.subrange(0, 0) =~= f);
    } else {
        assert(extension_of(g) == Some("disabled"@));
        assert(stem_of(g) == Some(f));
        if ends_with(f, ".disabled"@) {
            let rest = f.subrange(0, f.len() - 9);
            assert(f.subrange(f.len() - 9, f.len() as int) == ".disabled"@);
            assert(".disabled"@ =~= "."@ + "disabled"@);
            assert(f =~= rest + f.subrange(f.len() - 9, f.len() as int));
            assert(rest + "."@ + "disabled"@ =~= f);
        }
    }
    if plain_name(f) {
        assert(plain_name(g)) by {
            assert forall|c: char| (c == '/' || c == '\\' || c == ':') implies !g.contains(c) by {
                if g.contains(c) {
                    let k = choose|k: int| 0 <= k < g.len() && g[k] == c;
                    if k < f.len() {
                        assert(f[k] == c);
                    } else {
                        assert(".disabled"@[k - f.len()] == c);
                    }
                }
            }
        }
    }
}

proof fn lemma_restored_is_final(x: Seq<char>)
    ensures
        !(ends_with(restored_name(x), "_disabled"@) && restored_name(x).len() > 9),
    decreases x.len(),
{
    if ends_with(x, "_disabled"@) && x.len() > 9 {
        lemma_restored_is_final(x.subrange(0, x.len() - 9));
    }
}

/// Law: restoring a registry value name is idempotent, and a name with one more
/// `_disabled` suffix names the same application.
pub proof fn law_restored_name(x: Seq<char>)
    ensures
        restored_name(restored_name(x)) == restored_name(x),
        x.len() > 0 ==> restored_name(x + "_disabled"@) == restored_name(x),
{
    reveal_strlit("_disabled");
    lemma_restored_is_final(x);
    let y = x + "_disabled"@;
    if x.len() > 0 {
        assert(y.subrange(y.len() - 9, y.len() as int) =~= "_disabled"@);
        assert(y.subrange(0, y.len() - 9) =~= x);
    }
}

/// The Unicode `White_Space` characters (what `char::is_whitespace` accepts).
pub open spec fn unicode_ws() -> Seq<char> {
    seq![
        '\u{9}', '\u{A}', '\u{B}', '\u{C}', '\u{D}', '\u{20}', '\u{85}', '\u{A0}', '\u{1680}',
        '\u{2000}', '\u{2001}', '\u{2002}', '\u{2003}', '\u{2004}', '\u{2005}', '\u{2006}',
        '\u{2007}', '\u{2008}', '\u{2009}', '\u{200A}', '\u{2028}', '\u{2029}', '\u{202F}',
        '\u{205F}', '\u{3000}',
    ]
}

fn ws_chars() -> (v: Vec<char>)
    ensures
        v@ == unicode_ws(),
{
    let v = vec![
        '\u{9}', '\u{A}', '\u{B}', '\u{C}', '\u{D}', '\u{20}', '\u{85}', '\u{A0}', '\u{1680}',
        '\u{2000}', '\u{2001}', '\u{2002}', '\u{2003}', '\u{2004}', '\u{2005}', '\u{2006}',
        '\u{2007}', '\u{2008}', '\u{2009}', '\u{200A}', '\u{2028}', '\u{2029}', '\u{202F}',
        '\u{205F}', '\u{3000}',
    ];
    assert(v@ =~= unicode_ws());
    v
}

/// `s` without leading and trailing whitespace (`str::trim`).
pub open spec fn trim_ws(s: Seq<char>) -> Seq<char> {
    trim_end_any(trim_start_any(s, unicode_ws()), unicode_ws())
}

fn trim_exec(s: &[char]) -> (r: Vec<char>)
    ensures
        r@ == trim_ws(s@),
{
    let ws = ws_chars();
    let a = strip_prefix_any(s, &ws);
    strip_suffix_any(&a, &ws)
}

/// The environment references a startup command may use: `(token, variable)`.
pub open spec fn startup_vars() -> Seq<(Seq<char>, Seq<char>)> {
    seq![
        ("%SystemRoot%"@, "SystemRoot"@),
        ("%WINDIR%"@, "WINDIR"@),
        ("%ProgramFiles%"@, "ProgramFiles"@),
        ("%ProgramFiles(x86)%"@, "ProgramFiles(x86)"@),
        ("%APPDATA%"@, "APPDATA"@),
        ("%LOCALAPPDATA%"@, "LOCALAPPDATA"@),
        ("%USERPROFILE%"@, "USERPROFILE"@),
        ("%PUBLIC%"@, "PUBLIC"@),
    ]
}

/// One expansion step: when the variable is set, every occurrence of its token (such as
/// `%WINDIR%`) is replaced by its value, the token found ignoring ASCII case (variable
/// names are case-insensitive: `%windir%`, `%WinDir%` and `%WINDIR%` all match).
pub open spec fn expand_token(out: Seq<char>, token: Seq<char>, var: Seq<char>, env: EnvView) -> Seq<char> {
    match env_lookup(env, var) {
        Some(val) => replace_all_ci(out, token, val),
        None => out,
    }
}

/// The expansion steps from `k` on.
pub open spec fn expand_tokens_from(out: Seq<char>, env: EnvView, k: int) -> Seq<char>
    decreases 8 - k,
{
    if k < 0 || k >= 8 {
        out
    } else {
        expand_tokens_from(
            expand_token(out, startup_vars()[k].0, startup_vars()[k].1, env),
            env,
            k + 1,
        )
    }
}

/// Expansion of the common environment references of a startup command; unknown
/// references stay as written.
pub open spec fn expand_startup_spec(input: Seq<char>, env: EnvView) -> Seq<char> {
    expand_tokens_from(input, env, 0)
}

fn startup_token(k: usize) -> (r: (&'static str, &'static str))
    requires
        k < 8,
    ensures
        r.0@ == startup_vars()[k as int].0,
        r.1@ == startup_vars()[k as int].1,
{
    match k {
        0 => ("%SystemRoot%", "SystemRoot"),
        1 => ("%WINDIR%", "WINDIR"),
        2 => ("%ProgramFiles%", "ProgramFiles"),
        3 => ("%ProgramFiles(x86)%", "ProgramFiles(x86)"),
        4 => ("%APPDATA%", "APPDATA"),
        5 => ("%LOCALAPPDATA%", "LOCALAPPDATA"),
        6 => ("%USERPROFILE%", "USERPROFILE"),
        _ => ("%PUBLIC%", "PUBLIC"),
    }
}

fn expand_startup_exec(input: &[char], env: &EnvVars) -> (r: Vec<char>)
    ensures
        r@ == expand_startup_spec(input@, env@),
{
    let mut out = slice_copy(input, 0, input.len());
    assert(out@ =~= input@);
    let mut k: usize = 0;
    while k < 8
        invariant
            k <= 8,
            expand_tokens_from(out@, env@, k as int) == expand_startup_spec(input@, env@),
        decreases 8 - k,
    {
        let (token, var) = startup_token(k);
        let tok = chars_of(token);
        proof {
            reveal_strlit("%SystemRoot%");
            reveal_strlit("%WINDIR%");
            reveal_strlit("%ProgramFiles%");
            reveal_strlit("%ProgramFiles(x86)%");
            reveal_strlit("%APPDATA%");
            reveal_strlit("%LOCALAPPDATA%");
            reveal_strlit("%USERPROFILE%");
            reveal_strlit("%PUBLIC%");
        }
        assert(tok@.len() > 0);
        match env.get(&chars_of(var)) {
            Some(val) => {
                out = replace_seq_ci(&out, &tok, &val);
            },
            None => {},
        }
        k = k + 1;
    }
    out
}

/// Expands the common environment references of a startup command; the references are
/// found ignoring ASCII case.
pub fn expand_startup_env(input: &str, env: &EnvVars) -> (r: String)
    ensures
        r@ == expand_startup_spec(input@, env@),
{
    string_of(&expand_startup_exec(&chars_of(input), env))
}

/// Number of UTF-8 bytes of a text.
pub open spec fn utf8_len(s: Seq<char>) -> int
    decreases s.len(),
{
    if s.len() == 0 {
        0
    } else {
        utf8_len(s.drop_last()) + utf8_width(s.last())
    }
}

/// The prefix of `s` that is `n` bytes long in UTF-8; none when `n` falls inside a
/// character or past the end (where std's string slicing panics).
pub open spec fn byte_prefix(s: Seq<char>, n: int) -> Option<Seq<char>>
    decreases s.len(),
{
    if n == utf8_len(s) {
        Some(s)
    } else if s.len() == 0 || n > utf8_len(s) {
        None
    } else {
        byte_prefix(s.drop_last(), n)
    }
}

/// The first whitespace-separated token of `s` (empty when there is none).
pub open spec fn first_token(s: Seq<char>) -> Seq<char> {
    let t = trim_start_any(s, unicode_ws());
    take_until_ws(t)
}

/// The longest prefix of `s` without whitespace.
pub open spec fn take_until_ws(s: Seq<char>) -> Seq<char>
    decreases s.len(),
{
    if s.len() == 0 || unicode_ws().contains(s[0]) {
        Seq::empty()
    } else {
        seq![s[0]] + take_until_ws(s.drop_first())
    }
}

/// The quoted part of a command starting with `"`: up to the next `"`, trimmed.
pub open spec fn quoted_part(cmd: Seq<char>) -> Seq<char> {
    trim_ws(before_char(cmd.drop_first(), '"'))
}

/// Where the executable path of a command ends after `.exe`: the byte offset, in the
/// lowercased command, of its first `.exe`, plus four.
pub open spec fn exe_cut(cmd: Seq<char>) -> Option<int> {
    let lower = lowercase_of(cmd);
    match first_occurrence(lower, ".exe"@) {
        Some(k) => Some(utf8_len(lower.subrange(0, k)) + 4),
        None => None,
    }
}

/// The expanded, trimmed command.
pub open spec fn command_text(command: Seq<char>, env: EnvView) -> Seq<char> {
    expand_startup_spec(trim_ws(command), env)
}

/// Whether the parse of a command is defined: std would slice the command at the byte
/// offset found in its lowercased form, which panics when that offset falls inside a
/// character or past the end (lowercasing may change byte lengths).
pub open spec fn exe_parse_defined(command: Seq<char>, env: EnvView) -> bool {
    let cmd = command_text(command, env);
    cmd.len() == 0 || (cmd[0] == '"' && quoted_part(cmd).len() > 0) || match exe_cut(cmd) {
        Some(n) => byte_prefix(cmd, n) is Some,
        None => true,
    }
}

/// The executable path of a start command (best effort): empty commands have none; a
/// quoted command gives its quoted part; else the command up to its first `.exe`
/// (found ignoring case); else its first token.
pub open spec fn command_exe_spec(command: Seq<char>, env: EnvView) -> Option<Seq<char>> {
    let cmd = command_text(command, env);
    if cmd.len() == 0 {
        None
    } else if cmd[0] == '"' && quoted_part(cmd).len() > 0 {
        Some(quoted_part(cmd))
    } else {
        match exe_cut(cmd) {
            Some(n) => byte_prefix(cmd, n),
            None => if first_token(cmd).len() == 0 {
                None
            } else {
                Some(first_token(cmd))
            },
        }
    }
}

proof fn lemma_utf8_len_prefix(s: Seq<char>, j: int)
    requires
        0 <= j < s.len(),
    ensures
        utf8_len(s.subrange(0, j + 1)) == utf8_len(s.subrange(0, j)) + utf8_width(s[j]),
        utf8_width(s[j]) >= 1,
{
    assert(s.subrange(0, j + 1).drop_last() =~= s.subrange(0, j));
}

proof fn lemma_byte_prefix_at(s: Seq<char>, j: int, n: int)
    requires
        0 <= j <= s.len(),
        n == utf8_len(s.subrange(0, j)),
        forall|m: int| j < m <= s.len() ==> utf8_len(#[trigger] s.subrange(0, m)) > n,
    ensures
        byte_prefix(s, n) == Some(s.subrange(0, j)),
    decreases s.len(),
{
    if s.len() == j {
        assert(s.subrange(0, j) =~= s);
    } else {
        assert(s.subrange(0, s.len() as int) =~= s);
        assert(utf8_len(s) > n);
        assert forall|m: int| j < m <= s.drop_last().len() implies utf8_len(
            #[trigger] s.drop_last().subrange(0, m),
        ) > n by {
            assert(s.drop_last().subrange(0, m) =~= s.subrange(0, m));
        }
        assert(s.drop_last().subrange(0, j) =~= s.subrange(0, j));
        lemma_byte_prefix_at(s.drop_last(), j, n);
    }
}

proof fn lemma_byte_prefix_none(s: Seq<char>, n: int)
    requires
        forall|m: int| 0 <= m <= s.len() ==> utf8_len(#[trigger] s.subrange(0, m)) != n,
    ensures
        byte_prefix(s, n) is None,
    decreases s.len(),
{
    assert(s.subrange(0, s.len() as int) =~= s);
    if s.len() > 0 && n <= utf8_len(s) {
        assert forall|m: int| 0 <= m <= s.drop_last().len() implies utf8_len(
            #[trigger] s.drop_last().subrange(0, m),
        ) != n by {
            assert(s.drop_last().subrange(0, m) =~= s.subrange(0, m));
        }
        lemma_byte_prefix_none(s.drop_last(), n);
    }
}

proof fn lemma_utf8_monotone(s: Seq<char>, a: int, b: int)
    requires
        0 <= a <= b <= s.len(),
    ensures
        utf8_len(s.subrange(0, a)) + (b - a) <= utf8_len(s.subrange(0, b)),
    decreases b - a,
{
    if a < b {
        lemma_utf8_monotone(s, a, b - 1);
        lemma_utf8_len_prefix(s, b - 1);
    }
}

fn width(c: char) -> (w: u128)
    ensures
        w == utf8_width(c),
{
    let u = c as u32;
    if u < 0x80 {
        1
    } else if u < 0x800 {
        2
    } else if u < 0x10000 {
        3
    } else {
        4
    }
}

/// `utf8_len` of a prefix, computed.
fn utf8_len_of(s: &[char], k: usize) -> (n: u128)
    requires
        k <= s@.len(),
    ensures
        n == utf8_len(s@.subrange(0, k as int)),
        n <= 4 * k,
{
    let mut n: u128 = 0;
    let mut i: usize = 0;
    assert(s@.subrange(0, 0) =~= Seq::<char>::empty());
    while i < k
        invariant
            i <= k <= s@.len(),
            n == utf8_len(s@.subrange(0, i as int)),
            n <= 4 * i,
        decreases k - i,
    {
        proof {
            lemma_utf8_len_prefix(s@, i as int);
        }
        n = n + width(s[i]);
        i = i + 1;
    }
    n
}

/// The prefix of `s` that is `n` bytes long, if `n` is a character boundary.
fn byte_prefix_exec(s: &[char], n: u128) -> (r: Option<Vec<char>>)
    ensures
        r matches Some(p) ==> byte_prefix(s@, n as int) == Some(p@),
        r is None ==> byte_prefix(s@, n as int) is None,
{
    let mut acc: u128 = 0;
    let mut j: usize = 0;
    assert(s@.subrange(0, 0) =~= Seq::<char>::empty());
    while j < s.len() && acc < n
        invariant
            j <= s@.len(),
            acc == utf8_len(s@.subrange(0, j as int)),
            acc <= 4 * j,
            forall|m: int| 0 <= m < j ==> utf8_len(#[trigger] s@.subrange(0, m)) < n,
        decreases s@.len() - j,
    {
        proof {
            lemma_utf8_len_prefix(s@, j as int);
        }
        acc = acc + width(s[j]);
        j = j + 1;
    }
    if acc == n {
        proof {
            assert forall|m: int| j < m <= s@.len() implies utf8_len(#[trigger] s@.subrange(0, m)) > n by {
                lemma_utf8_monotone(s@, j as int, m);
            }
            lemma_byte_prefix_at(s@, j as int, n as int);
        }
        Some(slice_copy(s, 0, j))
    } else {
        proof {
            assert forall|m: int| 0 <= m <= s@.len() implies utf8_len(#[trigger] s@.subrange(0, m)) != n as int by {
                if m > j {
                    lemma_utf8_monotone(s@, j as int, m);
                } else if m == j {
                } else {
                }
            }
            lemma_byte_prefix_none(s@, n as int);
        }
        None
    }
}

fn first_token_exec(s: &[char]) -> (r: Vec<char>)
    ensures
        r@ == first_token(s@),
{
    let ws = ws_chars();
    let t = strip_prefix_any(s, &ws);
    let mut j: usize = 0;
    assert(t@.subrange(0, t@.len() as int) =~= t@);
    assert(t@.subrange(0, 0) + take_until_ws(t@) =~= take_until_ws(t@));
    while j < t.len() && !crate::text::char_in(t[j], &ws)
        invariant
            j <= t@.len(),
            ws@ == unicode_ws(),
            take_until_ws(t@) == t@.subrange(0, j as int) + take_until_ws(t@.subrange(j as int, t@.len() as int)),
        decreases t@.len() - j,
    {
        let ghost rest = t@.subrange(j as int, t@.len() as int);
        assert(rest.drop_first() =~= t@.subrange(j + 1, t@.len() as int));
        assert(t@.subrange(0, j + 1) =~= t@.subrange(0, j as int) + seq![t@[j as int]]);
        j = j + 1;
    }
    proof {
        let rest = t@.subrange(j as int, t@.len() as int);
        assert(take_until_ws(rest) =~= Seq::<char>::empty());
        assert(t@.subrange(0, j as int) + Seq::<char>::empty() =~= t@.subrange(0, j as int));
    }
    slice_copy(&t, 0, j)
}

/// The executable path of a start command; see `command_exe_spec`. Defined where std's
/// slicing would not panic (`exe_parse_defined`).
pub fn parse_command_exe(command: &str, env: &EnvVars) -> (r: Option<String>)
    requires
        exe_parse_defined(command@, env@),
    ensures
        r matches Some(p) ==> command_exe_spec(command@, env@) == Some(p@),
        r is None ==> command_exe_spec(command@, env@) is None,
{
    match parse_command_exe_checked(command, env) {
        Some(r) => r,
        None => None,
    }
}

/// The executable path of a start command, or `None` when its parse is not defined
/// (where std's slicing would panic).
pub fn parse_command_exe_checked(command: &str, env: &EnvVars) -> (r: Option<Option<String>>)
    ensures
        r is None <==> !exe_parse_defined(command@, env@),
        r matches Some(Some(p)) ==> command_exe_spec(command@, env@) == Some(p@),
        r matches Some(None) ==> command_exe_spec(command@, env@) is None,
{
    let trimmed = trim_exec(&chars_of(command));
    let cmd = expand_startup_exec(&trimmed, env);
    if cmd.len() == 0 {
        return Some(None);
    }
    if cmd[0] == '"' {
        let rest = slice_copy(&cmd, 1, cmd.len());
        assert(rest@ =~= cmd@.drop_first());
        let inner = trim_exec(&take_before(&rest, '"'));
        if inner.len() > 0 {
            return Some(Some(string_of(&inner)));
        }
    }
    let lower = to_lowercase(&cmd);
    proof {
        lemma_first_occurrence(lower@, ".exe"@);
    }
    match find(&lower, &chars_of(".exe")) {
        Some(k) => {
            let n = utf8_len_of(&lower, k);
            match byte_prefix_exec(&cmd, n + 4) {
                Some(p) => Some(Some(string_of(&p))),
                None => None,
            }
        },
        None => {
            let t = first_token_exec(&cmd);
            if t.len() == 0 {
                Some(None)
            } else {
                Some(Some(string_of(&t)))
            }
        },
    }
}

/// Whether a startup item belongs to Windows: its lowercased name contains
/// `microsoft`, `windows` or `onedrive`, or its lowercased executable path (with `/` read
/// as `\`) contains `\windows\`, `\microsoft\` or `windowsapps`.
pub open spec fn system_item_spec(name: Seq<char>, exe: Option<Seq<char>>) -> bool {
    let ln = lowercase_of(name);
    contains(ln, "microsoft"@) || contains(ln, "windows"@) || contains(ln, "onedrive"@) || match exe {
        Some(e) => {
            let le = replace_char(lowercase_of(e), '/', '\\');
            contains(le, "\\windows\\"@) || contains(le, "\\microsoft\\"@) || contains(le, "windowsapps"@)
        },
        None => false,
    }
}

/// Law of the system-item filter: an item is a Windows item exactly when one of these
/// markers occurs: `microsoft`, `windows` or `onedrive` in its lowercased name, or
/// `\windows\`, `\microsoft\` or `windowsapps` in its lowercased executable path with
/// `/` read as `\`. In particular an item with none of them (a program under `AppData`,
/// say) is listed for the user.
pub proof fn law_system_item_markers(name: Seq<char>, exe: Option<Seq<char>>)
    ensures
        system_item_spec(name, exe) <==> ({
            let ln = lowercase_of(name);
            ||| contains(ln, "microsoft"@)
            ||| contains(ln, "windows"@)
            ||| contains(ln, "onedrive"@)
            ||| (exe matches Some(e) && ({
                let le = replace_char(lowercase_of(e), '/', '\\');
                ||| contains(le, "\\windows\\"@)
                ||| contains(le, "\\microsoft\\"@)
                ||| contains(le, "windowsapps"@)
            }))
        }),
{
}

/// Whether a startup item belongs to Windows (and is not listed).
pub fn is_system_item(name: &str, exe: Option<&str>) -> (b: bool)
    ensures
        b == system_item_spec(name@, match exe {
            Some(e) => Some(e@),
            None => None,
        }),
{
    let ln = to_lowercase(&chars_of(name));
    if has_sub(&ln, &chars_of("microsoft")) || has_sub(&ln, &chars_of("windows")) || has_sub(
        &ln,
        &chars_of("onedrive"),
    ) {
        return true;
    }
    match exe {
        Some(e) => {
            let le = map_char(&to_lowercase(&chars_of(e)), '/', '\\');
            has_sub(&le, &chars_of("\\windows\\")) || has_sub(&le, &chars_of("\\microsoft\\"))
                || has_sub(&le, &chars_of("windowsapps"))
        },
        None => false,
    }
}

/// The message for a machine-wide item changed without administrator rights; `verb` is
/// the action (关闭 or 打开).
pub open spec fn admin_msg_spec(name: Seq<char>, verb: Seq<char>) -> Seq<char> {
    verb + "「"@ + name
        + "」的开机自启动需要管理员权限：请以管理员身份运行 PonyClean 后重试，或在「任务管理器 → 启动应用」中操作"@
}

/// The message for a machine-wide item changed without administrator rights.
pub fn admin_required_msg(name: &str, verb: &str) -> (r: String)
    ensures
        r@ == admin_msg_spec(name@, verb@),
{
    let mut v = chars_of(verb);
    push_str(&mut v, "「");
    push_str(&mut v, name);
    push_str(
        &mut v,
        "」的开机自启动需要管理员权限：请以管理员身份运行 PonyClean 后重试，或在「任务管理器 → 启动应用」中操作",
    );
    string_of(&v)
}

/// The error of renaming a startup folder file: the administrator message for a
/// machine-wide item, else the action's failure with the system's reason.
pub fn folder_rename_error(name: &str, verb: &str, requires_admin: bool, reason: &str) -> (r: String)
    ensures
        requires_admin ==> r@ == admin_msg_spec(name@, verb@),
        !requires_admin ==> r@ == verb@ + "「"@ + name@ + "」的开机自启动失败: "@ + reason@,
{
    if requires_admin {
        admin_required_msg(name, verb)
    } else {
        let mut v = chars_of(verb);
        push_str(&mut v, "「");
        push_str(&mut v, name);
        push_str(&mut v, "」的开机自启动失败: ");
        push_str(&mut v, reason);
        string_of(&v)
    }
}

/// The error for an item whose entry no longer exists.
pub fn not_found_msg(name: &str) -> (r: String)
    ensures
        r@ == "未找到「"@ + name@ + "」的开机自启动项"@,
{
    let mut v = chars_of("未找到「");
    push_str(&mut v, name);
    push_str(&mut v, "」的开机自启动项");
    string_of(&v)
}

/// The outcome of trying several registry views of a machine-wide item: success when any
/// attempt succeeded; otherwise the last attempt's error, or `fallback` when nothing was
/// tried.
pub fn combine_attempts(outcomes: &Vec<Result<(), String>>, fallback: String) -> (r: Result<(), String>)
    ensures
        (exists|i: int| 0 <= i < outcomes@.len() && outcomes@[i] is Ok) ==> r is Ok,
        !(exists|i: int| 0 <= i < outcomes@.len() && outcomes@[i] is Ok) && outcomes@.len() > 0
            ==> r == outcomes@.last(),
        outcomes@.len() == 0 ==> r == Err::<(), String>(fallback),
{
    let mut i: usize = 0;
    while i < outcomes.len()
        invariant
            i <= outcomes@.len(),
            forall|j: int| 0 <= j < i ==> outcomes@[j] is Err,
        decreases outcomes@.len() - i,
    {
        if outcomes[i].is_ok() {
            return Ok(());
        }
        i = i + 1;
    }
    if outcomes.len() == 0 {
        Err(fallback)
    } else {
        proof {
            assert(outcomes@.last() is Err);
        }
        match &outcomes[outcomes.len() - 1] {
            Ok(()) => Ok(()),
            Err(e) => Err(e.clone()),
        }
    }
}

/// The startup folder of a folder source: under `APPDATA` for the user, under
/// `ProgramData` (else `ALLUSERSPROFILE`) for the machine; registry sources have none.
pub open spec fn startup_folder_spec(source: StartupSource, env: EnvView) -> Result<Seq<char>, Seq<char>> {
    let tail = "Microsoft\\Windows\\Start Menu\\Programs\\Startup"@;
    match source {
        StartupSource::FolderUser => match env_lookup(env, "APPDATA"@) {
            Some(b) => Ok(join_spec(b, tail)),
            None => Err("无法获取 %APPDATA%"@),
        },
        StartupSource::FolderMachine => match env_lookup(env, "ProgramData"@) {
            Some(b) => Ok(join_spec(b, tail)),
            None => match env_lookup(env, "ALLUSERSPROFILE"@) {
                Some(b) => Ok(join_spec(b, tail)),
                None => Err("无法获取 %ProgramData%"@),
            },
        },
        _ => Err("非文件夹来源"@),
    }
}

/// The startup folder of a folder source.
pub fn startup_folder(source: StartupSource, env: &EnvVars) -> (r: Result<String, String>)
    ensures
        match (r, startup_folder_spec(source, env@)) {
            (Ok(p), Ok(q)) => p@ == q,
            (Err(e), Err(f)) => e@ == f,
            _ => false,
        },
{
    let tail = "Microsoft\\Windows\\Start Menu\\Programs\\Startup";
    match source {
        StartupSource::FolderUser => match env.get(&chars_of("APPDATA")) {
            Some(b) => Ok(string_of(&crate::cleaner::join_path(&b, tail))),
            None => Err("无法获取 %APPDATA%".to_owned()),
        },
        StartupSource::FolderMachine => match env.get(&chars_of("ProgramData")) {
            Some(b) => Ok(string_of(&crate::cleaner::join_path(&b, tail))),
            None => match env.get(&chars_of("ALLUSERSPROFILE")) {
                Some(b) => Ok(string_of(&crate::cleaner::join_path(&b, tail))),
                None => Err("无法获取 %ProgramData%".to_owned()),
            },
        },
        _ => Err("非文件夹来源".to_owned()),
    }
}

/// The UTF-16 little-endian bytes of one character (a surrogate pair above U+FFFF).
pub open spec fn char_utf16le(c: char) -> Seq<u8> {
    let v = (c as u32) as int;
    if v < 0x10000 {
        seq![(v % 256) as u8, (v / 256) as u8]
    } else {
        let hi = 0xD800 + (v - 0x10000) / 1024;
        let lo = 0xDC00 + (v - 0x10000) % 1024;
        seq![(hi % 256) as u8, (hi / 256) as u8, (lo % 256) as u8, (lo / 256) as u8]
    }
}

/// The UTF-16 little-endian bytes of a text.
pub open spec fn utf16le(s: Seq<char>) -> Seq<u8>
    decreases s.len(),
{
    if s.len() == 0 {
        Seq::empty()
    } else {
        utf16le(s.drop_last()) + char_utf16le(s.last())
    }
}

/// The data of a `REG_SZ` / `REG_EXPAND_SZ` value holding `command`: its UTF-16
/// little-endian bytes followed by a NUL terminator.
pub fn reg_sz_bytes(command: &str) -> (r: Vec<u8>)
    ensures
        r@ == utf16le(command@) + seq![0u8, 0u8],
{
    let c = chars_of(command);
    let mut out: Vec<u8> = Vec::new();
    let mut i: usize = 0;
    while i < c.len()
        invariant
            i <= c@.len(),
            c@ == command@,
            out@ == utf16le(c@.subrange(0, i as int)),
        decreases c@.len() - i,
    {
        assert(c@.subrange(0, i + 1).drop_last() =~= c@.subrange(0, i as int));
        let ch = c[i];
        let v: u32 = ch as u32;
        proof {
            vstd::utf8::char_is_scalar(ch);
        }
        assert(v <= 0x10FFFF);
        let ghost before = out@;
        if v < 0x10000 {
            out.push((v % 256) as u8);
            out.push((v / 256) as u8);
        } else {
            let hi: u32 = 0xD800 + (v - 0x10000) / 1024;
            let lo: u32 = 0xDC00 + (v - 0x10000) % 1024;
            out.push((hi % 256) as u8);
            out.push((hi / 256) as u8);
            out.push((lo % 256) as u8);
            out.push((lo / 256) as u8);
        }
        assert(out@ =~= before + char_utf16le(c@[i as int]));
        i = i + 1;
    }
    assert(c@.subrange(0, c@.len() as int) =~= c@);
    let ghost body = out@;
    out.push(0);
    out.push(0);
    assert(out@ =~= body + seq![0u8, 0u8]);
    out
}

/// Whether a `StartupApproved` value marks its item disabled: the low bit of its first
/// byte is set.
pub fn approved_marks_disabled(value: &[u8]) -> (b: bool)
    ensures
        b == (value@.len() > 0 && value@[0] % 2 == 1),
{
    value.len() > 0 && value[0] % 2 == 1
}

/// A registry string value as a command: trailing NUL characters removed.
pub fn registry_command(raw: &str) -> (r: String)
    ensures
        r@ == trim_end_any(raw@, seq!['\0']),
{
    let nul = vec!['\0'];
    assert(nul@ =~= seq!['\0']);
    string_of(&strip_suffix_any(&chars_of(raw), &nul))
}

/// The view of an optional string.
pub open spec fn opt_view(o: Option<String>) -> Option<Seq<char>> {
    match o {
        Some(s) => Some(s@),
        None => None,
    }
}

/// `item` has exactly these fields (and no icon yet).
pub open spec fn item_has(
    item: StartupItem,
    name: Seq<char>,
    command: Seq<char>,
    exe: Option<Seq<char>>,
    source: StartupSource,
    admin: bool,
    enabled: bool,
    reg_name: Seq<char>,
    expand_sz: bool,
) -> bool {
    &&& item.name@ == name
    &&& item.command@ == command
    &&& item.exe_path@ == (match exe {
        Some(e) => e,
        None => Seq::empty(),
    })
    &&& item.source == source
    &&& item.requires_admin == admin
    &&& item.enabled == enabled
    &&& item.icon is None
    &&& opt_view(item.reg_name) == Some(reg_name)
    &&& item.expand_sz == expand_sz
}

/// The listed item of a registry value, given its command and parsed executable: none
/// for a blank value name or a Windows item; else named by the value name without legacy
/// `_disabled` suffixes.
pub fn registry_item(
    reg_name: &str,
    command: String,
    exe: Option<String>,
    expand_sz: bool,
    source: StartupSource,
    admin: bool,
    enabled: bool,
) -> (r: Option<StartupItem>)
    ensures
        trim_ws(reg_name@).len() == 0 ==> r is None,
        trim_ws(reg_name@).len() != 0 && system_item_spec(restored_name(reg_name@), opt_view(exe))
            ==> r is None,
        trim_ws(reg_name@).len() != 0 && !system_item_spec(restored_name(reg_name@), opt_view(exe))
            ==> (r matches Some(item) && item_has(
            item,
            restored_name(reg_name@),
            command@,
            opt_view(exe),
            source,
            admin,
            enabled,
            reg_name@,
            expand_sz,
        )),
{
    if trim_exec(&chars_of(reg_name)).len() == 0 {
        return None;
    }
    let name = restore_reg_name(reg_name);
    let system = match &exe {
        Some(e) => is_system_item(name.as_str(), Some(e.as_str())),
        None => is_system_item(name.as_str(), None),
    };
    if system {
        return None;
    }
    let exe_path = match exe {
        Some(e) => e,
        None => String::new(),
    };
    Some(
        StartupItem {
            name,
            command,
            exe_path,
            source,
            requires_admin: admin,
            enabled,
            icon: None,
            reg_name: Some(reg_name.to_owned()),
            expand_sz,
        },
    )
}

/// Whether a startup-folder file is a shortcut (extension `lnk`, any case). Stated for
/// plain file names.
pub fn is_shortcut(fname: &str) -> (b: bool)
    ensures
        plain_name(fname@) ==> b == (extension_of(fname@) matches Some(e) && ascii_lower(e)
            == ascii_lower("lnk"@)),
{
    match extension_any(fname) {
        Some(e) => eq_ignore_ascii_case(&e, &chars_of("lnk")),
        None => false,
    }
}

proof fn lemma_plain_subrange(s: Seq<char>, a: int, b: int)
    requires
        plain_name(s),
        0 <= a <= b <= s.len(),
    ensures
        plain_name(s.subrange(a, b)),
{
    let t = s.subrange(a, b);
    assert forall|c: char| t.contains(c) implies s.contains(c) by {
        let k = choose|k: int| 0 <= k < t.len() && t[k] == c;
        assert(s[a + k] == c);
    }
}

proof fn lemma_plain_concat(x: Seq<char>, y: Seq<char>)
    requires
        plain_name(x),
        plain_name(y),
    ensures
        plain_name(x + y),
{
    let t = x + y;
    assert forall|c: char| t.contains(c) implies x.contains(c) || y.contains(c) by {
        let k = choose|k: int| 0 <= k < t.len() && t[k] == c;
        if k < x.len() {
            assert(x[k] == c);
        } else {
            assert(y[k - x.len()] == c);
        }
    }
}

proof fn lemma_enabled_name_plain(f: Seq<char>)
    requires
        plain_name(f),
    ensures
        plain_name(enabled_name_spec(f)),
{
    let stem = match stem_of(f) {
        Some(s) => s,
        None => Seq::empty(),
    };
    match last_dot(f) {
        Some(i) => {
            lemma_last_dot_range(f);
            lemma_plain_subrange(f, 0, i);
            lemma_plain_subrange(f, i + 1, f.len() as int);
        },
        None => {},
    }
    assert(plain_name(stem)) by {
        if f.len() == 0 || f == ".."@ {
            assert(stem =~= Seq::<char>::empty());
        }
    }
    if ends_with(stem, ".disabled"@) {
        reveal_strlit(".disabled");
        reveal_strlit(".");
        let rest = stem.subrange(0, stem.len() - 9);
        lemma_plain_subrange(stem, 0, stem.len() - 9);
        match extension_of(f) {
            Some(e) => {
                assert(plain_name("."@));
                lemma_plain_concat(rest, "."@);
                lemma_plain_concat(rest + "."@, e);
            },
            None => {},
        }
    }
}

proof fn lemma_last_dot_range(s: Seq<char>)
    ensures
        last_dot(s) matches Some(i) ==> 0 <= i < s.len(),
    decreases s.len(),
{
    if s.len() > 0 && s.last() != '.' {
        lemma_last_dot_range(s.drop_last());
    }
}

/// The display name of a startup-folder file: its name before disabling (for a disabled file),
/// without extension.
pub open spec fn folder_display_name(fname: Seq<char>) -> Seq<char> {
    let clean = if disabled_file_spec(fname) {
        enabled_name_spec(fname)
    } else {
        fname
    };
    match stem_of(clean) {
        Some(s) => s,
        None => clean,
    }
}

/// The listed item of a startup-folder file, given the executable it starts (`exe`:
/// the shortcut's target, or the file's own path): none for `desktop.ini` or a Windows
/// item; else named by its display name and enabled unless disabled by name or marked
/// disabled (`marked_disabled`). Stated for plain file names.
pub fn folder_item(
    fname: &str,
    exe: Option<String>,
    source: StartupSource,
    admin: bool,
    marked_disabled: bool,
) -> (r: Option<StartupItem>)
    ensures
        ascii_lower(fname@) == ascii_lower("desktop.ini"@) ==> r is None,
        plain_name(fname@) && ascii_lower(fname@) != ascii_lower("desktop.ini"@) ==> {
            let name = folder_display_name(fname@);
            if system_item_spec(name, opt_view(exe)) {
                r is None
            } else {
                r matches Some(item) && item_has(
                    item,
                    name,
                    Seq::empty(),
                    opt_view(exe),
                    source,
                    admin,
                    !disabled_file_spec(fname@) && !marked_disabled,
                    fname@,
                    false,
                )
            }
        },
{
    if eq_ignore_ascii_case(&chars_of(fname), &chars_of("desktop.ini")) {
        return None;
    }
    let disabled = is_disabled_file(fname);
    let clean = if disabled {
        enable_file_name(fname)
    } else {
        fname.to_owned()
    };
    let ghost clean_v = clean@;
    proof {
        if plain_name(fname@) && disabled {
            lemma_enabled_name_plain(fname@);
        }
    }
    let name: String = if plain_name_exec(&chars_of(clean.as_str())) {
        match stem_exec(&chars_of(clean.as_str())) {
            Some(s) => string_of(&s),
            None => clean,
        }
    } else {
        match stem_any(clean.as_str()) {
            Some(s) => string_of(&s),
            None => clean,
        }
    };
    proof {
        if plain_name(fname@) && disabled {
            assert(clean_v == enabled_name_spec(fname@));
            lemma_enabled_name_plain(fname@);
        }
    }
    let system = match &exe {
        Some(e) => is_system_item(name.as_str(), Some(e.as_str())),
        None => is_system_item(name.as_str(), None),
    };
    if system {
        return None;
    }
    let exe_path = match exe {
        Some(e) => e,
        None => String::new(),
    };
    Some(
        StartupItem {
            name,
            command: String::new(),
            exe_path,
            source,
            requires_admin: admin,
            enabled: !disabled && !marked_disabled,
            icon: None,
            reg_name: Some(fname.to_owned()),
            expand_sz: false,
        },
    )
}

/// Items are the same entry when source and name agree.
pub open spec fn same_key(a: StartupItem, b: StartupItem) -> bool {
    a.source == b.source && a.name@ == b.name@
}

/// Position of the first item of `acc` with the key of `x`.
pub open spec fn key_pos(acc: Seq<StartupItem>, x: StartupItem) -> Option<int>
    decreases acc.len(),
{
    if acc.len() == 0 {
        None
    } else {
        match key_pos(acc.drop_last(), x) {
            Some(p) => Some(p),
            None => if same_key(acc.last(), x) {
                Some(acc.len() - 1)
            } else {
                None
            },
        }
    }
}

/// De-duplication by (source, name), in order: the first item of a key stays, and it is
/// enabled when any item of that key is.
pub open spec fn dedup_spec(items: Seq<StartupItem>) -> Seq<StartupItem>
    decreases items.len(),
{
    if items.len() == 0 {
        Seq::empty()
    } else {
        let acc = dedup_spec(items.drop_last());
        let x = items.last();
        match key_pos(acc, x) {
            Some(p) => if x.enabled && !acc[p].enabled {
                acc.update(p, StartupItem { enabled: true, ..acc[p] })
            } else {
                acc
            },
            None => acc.push(x),
        }
    }
}

proof fn lemma_key_pos(acc: Seq<StartupItem>, x: StartupItem)
    ensures
        key_pos(acc, x) matches Some(p) ==> 0 <= p < acc.len() && same_key(acc[p], x) && forall|
            q: int,
        | 0 <= q < p ==> !same_key(#[trigger] acc[q], x),
        key_pos(acc, x) is None ==> forall|q: int| 0 <= q < acc.len() ==> !same_key(#[trigger] acc[q], x),
    decreases acc.len(),
{
    if acc.len() > 0 {
        lemma_key_pos(acc.drop_last(), x);
        assert forall|q: int| 0 <= q < acc.len() - 1 implies acc.drop_last()[q] == acc[q] by {}
    }
}

fn key_pos_exec(acc: &Vec<StartupItem>, x: &StartupItem) -> (r: Option<usize>)
    ensures
        r matches Some(p) ==> key_pos(acc@, *x) == Some(p as int),
        r is None ==> key_pos(acc@, *x) is None,
{
    proof {
        lemma_key_pos(acc@, *x);
    }
    let name = chars_of(x.name.as_str());
    let mut i: usize = 0;
    while i < acc.len()
        invariant
            i <= acc@.len(),
            name@ == x.name@,
            forall|q: int| 0 <= q < i ==> !same_key(#[trigger] acc@[q], *x),
            key_pos(acc@, *x) matches Some(p) ==> 0 <= p < acc@.len() && same_key(acc@[p], *x)
                && forall|q: int| 0 <= q < p ==> !same_key(#[trigger] acc@[q], *x),
            key_pos(acc@, *x) is None ==> forall|q: int|
                0 <= q < acc@.len() ==> !same_key(#[trigger] acc@[q], *x),
        decreases acc@.len() - i,
    {
        if acc[i].source == x.source && same(&chars_of(acc[i].name.as_str()), &name) {
            proof {
                if let Some(p) = key_pos(acc@, *x) {
                    if p < i {
                    } else if p > i {
                        assert(same_key(acc@[i as int], *x));
                    }
                }
            }
            return Some(i);
        }
        i = i + 1;
    }
    None
}

/// Merges items of the same source and name: the first stays, enabled when any of them
/// is enabled (Windows runs every variant that is not marked disabled).
pub fn dedup_items(items: &mut Vec<StartupItem>)
    ensures
        final(items)@ == dedup_spec(old(items)@),
{
    let mut input: Vec<StartupItem> = Vec::new();
    std::mem::swap(&mut input, items);
    let ghost all = input@;
    let mut out: Vec<StartupItem> = Vec::new();
    for x in it: input.into_iter()
        invariant
            it.seq() == all,
            out@ == dedup_spec(all.subrange(0, it.index() as int)),
    {
        let ghost k = it.index();
        assert(all.subrange(0, k + 1).drop_last() =~= all.subrange(0, k as int));
        assert(all.subrange(0, k + 1).last() == x);
        proof {
            lemma_key_pos(out@, x);
        }
        match key_pos_exec(&out, &x) {
            Some(p) => {
                if x.enabled && !out[p].enabled {
                    let ghost before = out@;
                    let mut first = out.remove(p);
                    first.enabled = true;
                    out.insert(p, first);
                    assert(out@ =~= before.update(p as int, StartupItem { enabled: true, ..before[p as int] }));
                }
            },
            None => {
                out.push(x);
            },
        }
    }
    assert(all.subrange(0, all.len() as int) =~= all);
    *items = out;
}

/// Some item of `items` has the key of `x`; with `enabled`, an enabled one.
pub open spec fn has_key(items: Seq<StartupItem>, x: StartupItem, enabled: bool) -> bool {
    exists|i: int| 0 <= i < items.len() && #[trigger] same_key(items[i], x) && (!enabled || items[i].enabled)
}

/// The law of de-duplication: the merged list has each (source, name) once, every input
/// key is listed, and a merged item is enabled exactly when some input item of its key
/// is enabled.
pub proof fn law_dedup_merges_keys(items: Seq<StartupItem>)
    ensures
        forall|p: int, q: int|
            0 <= p < q < dedup_spec(items).len() ==> !same_key(
                #[trigger] dedup_spec(items)[p],
                #[trigger] dedup_spec(items)[q],
            ),
        forall|i: int| 0 <= i < items.len() ==> has_key(dedup_spec(items), #[trigger] items[i], false),
        forall|p: int|
            0 <= p < dedup_spec(items).len() ==> (#[trigger] dedup_spec(items)[p]).enabled == has_key(
                items,
                dedup_spec(items)[p],
                true,
            ),
    decreases items.len(),
{
    if items.len() > 0 {
        let prev = items.drop_last();
        let acc = dedup_spec(prev);
        let x = items.last();
        let out = dedup_spec(items);
        law_dedup_merges_keys(prev);
        lemma_key_pos(acc, x);
        assert forall|i: int| 0 <= i < prev.len() implies prev[i] == items[i] by {}
        match key_pos(acc, x) {
            Some(p) => {
                assert forall|q: int| 0 <= q < out.len() implies same_key(#[trigger] out[q], acc[q])
                    && (q != p ==> out[q] == acc[q]) by {}
                assert forall|a: int, b: int|
                    0 <= a < b < out.len() implies !same_key(#[trigger] out[a], #[trigger] out[b]) by {
                    assert(!same_key(acc[a], acc[b]));
                }
                assert forall|i: int| 0 <= i < items.len() implies has_key(out, #[trigger] items[i], false) by {
                    if i < prev.len() {
                        assert(has_key(acc, prev[i], false));
                        let k = choose|k: int| 0 <= k < acc.len() && #[trigger] same_key(acc[k], prev[i]) && (!false || acc[k].enabled);
                        assert(same_key(out[k], items[i]));
                    } else {
                        assert(same_key(out[p], items[i]));
                    }
                }
                assert forall|q: int| 0 <= q < out.len() implies (#[trigger] out[q]).enabled == has_key(items, out[q], true) by {
                    if has_key(prev, acc[q], true) {
                        let i = choose|i: int| 0 <= i < prev.len() && #[trigger] same_key(prev[i], acc[q]) && (!true || prev[i].enabled);
                        assert(same_key(items[i], out[q]) && items[i].enabled);
                    }
                    if has_key(items, out[q], true) {
                        let i = choose|i: int| 0 <= i < items.len() && #[trigger] same_key(items[i], out[q]) && (!true || items[i].enabled);
                        if i < prev.len() {
                            assert(same_key(prev[i], acc[q]) && prev[i].enabled);
                        } else {
                            if q != p {
                                assert(same_key(acc[p], acc[q]));
                            }
                        }
                    }
                    if q == p && x.enabled {
                        assert(same_key(items[items.len() - 1], out[q]));
                    }
                }
            },
            None => {
                assert(out == acc.push(x));
                assert forall|a: int, b: int|
                    0 <= a < b < out.len() implies !same_key(#[trigger] out[a], #[trigger] out[b]) by {
                    if b == acc.len() {
                        assert(!same_key(acc[a], x));
                    }
                }
                assert forall|i: int| 0 <= i < items.len() implies has_key(out, #[trigger] items[i], false) by {
                    if i < prev.len() {
                        assert(has_key(acc, prev[i], false));
                        let k = choose|k: int| 0 <= k < acc.len() && #[trigger] same_key(acc[k], prev[i]) && (!false || acc[k].enabled);
                        assert(same_key(out[k], items[i]));
                    } else {
                        assert(same_key(out[acc.len() as int], items[i]));
                    }
                }
                assert forall|q: int| 0 <= q < out.len() implies (#[trigger] out[q]).enabled == has_key(items, out[q], true) by {
                    if q < acc.len() {
                        if has_key(prev, acc[q], true) {
                            let i = choose|i: int| 0 <= i < prev.len() && #[trigger] same_key(prev[i], acc[q]) && (!true || prev[i].enabled);
                            assert(same_key(items[i], out[q]) && items[i].enabled);
                        }
                        if has_key(items, out[q], true) {
                            let i = choose|i: int| 0 <= i < items.len() && #[trigger] same_key(items[i], out[q]) && (!true || items[i].enabled);
                            if i < prev.len() {
                                assert(same_key(prev[i], acc[q]) && prev[i].enabled);
                            } else {
                                assert(same_key(acc[q], x));
                            }
                        }
                    } else {
                        if x.enabled {
                            assert(same_key(items[items.len() - 1], out[q]));
                        }
                        if has_key(items, out[q], true) {
                            let i = choose|i: int| 0 <= i < items.len() && #[trigger] same_key(items[i], out[q]) && (!true || items[i].enabled);
                            if i < prev.len() {
                                assert(has_key(acc, prev[i], false));
                                let k = choose|k: int| 0 <= k < acc.len() && #[trigger] same_key(acc[k], prev[i]) && (!false || acc[k].enabled);
                                assert(same_key(acc[k], x));
                            }
                        }
                    }
                }
            },
        }
    }
}

/// The sort key of an item: its lowercased name.
pub open spec fn name_key(i: StartupItem) -> Seq<char> {
    lowercase_of(i.name@)
}

/// Items ordered by lowercased name (lexicographically).
pub open spec fn sorted_by_name(items: Seq<StartupItem>) -> bool {
    forall|a: int, b: int|
        0 <= a < b < items.len() ==> !seq_lt(name_key(#[trigger] items[b]), name_key(#[trigger] items[a]))
}

/// The items of `s` whose sort key is `key`, in their order in `s`.
pub open spec fn with_key(s: Seq<StartupItem>, key: Seq<char>) -> Seq<StartupItem> {
    s.filter(|y: StartupItem| name_key(y) == key)
}

proof fn lemma_insert_with_key(before: Seq<StartupItem>, j: int, x: StartupItem, key: Seq<char>)
    requires
        sorted_by_name(before),
        0 <= j <= before.len(),
        j < before.len() ==> seq_lt(name_key(x), name_key(before[j])),
    ensures
        with_key(before.insert(j, x), key) == if name_key(x) == key {
            with_key(before, key).push(x)
        } else {
            with_key(before, key)
        },
{
    let pred = |y: StartupItem| name_key(y) == key;
    let head = before.take(j);
    let tail = before.skip(j);
    assert(before.insert(j, x) =~= head.push(x) + tail);
    assert(before =~= head + tail);
    Seq::filter_distributes_over_add(head.push(x), tail, pred);
    Seq::filter_distributes_over_add(head, tail, pred);
    head.lemma_filter_push(x, pred);
    if name_key(x) == key {
        assert forall|b: int| 0 <= b < tail.len() implies !pred(#[trigger] tail[b]) by {
            assert(tail[b] == before[j + b]);
            crate::disk::lemma_seq_lt_irreflexive(name_key(x));
            if b > 0 {
                assert(!seq_lt(name_key(before[j + b]), name_key(before[j])));
            }
        }
        tail.lemma_all_neg_filter_empty(pred);
        assert(tail.filter(pred) =~= Seq::<StartupItem>::empty());
        assert(head.filter(pred).push(x) + tail.filter(pred) =~= (head.filter(pred) + tail.filter(pred)).push(x));
    }
}

fn name_key_exec(i: &StartupItem) -> (k: String)
    ensures
        k@ == name_key(*i),
{
    string_of(&to_lowercase(&chars_of(i.name.as_str())))
}

/// The items sorted by lowercased name; items with equal keys keep their order (the
/// items of each key come out in the order they came in).
pub fn sort_by_name(items: Vec<StartupItem>) -> (r: Vec<StartupItem>)
    ensures
        r@.to_multiset() == items@.to_multiset(),
        sorted_by_name(r@),
        forall|key: Seq<char>| #[trigger] with_key(r@, key) == with_key(items@, key),
{
    broadcast use vstd::seq_lib::group_to_multiset_ensures;

    let ghost all = items@;
    let mut out: Vec<StartupItem> = Vec::new();
    for x in it: items.into_iter()
        invariant
            it.seq() == all,
            out@.to_multiset() == all.subrange(0, it.index() as int).to_multiset(),
            sorted_by_name(out@),
            forall|key: Seq<char>|
                #[trigger] with_key(out@, key) == with_key(all.subrange(0, it.index() as int), key),
    {
        let ghost k = it.index();
        let kx = name_key_exec(&x);
        let mut j: usize = 0;
        while j < out.len() && !path_lt(kx.as_str(), name_key_exec(&out[j]).as_str())
            invariant
                j <= out@.len(),
                kx@ == name_key(x),
                forall|a: int| 0 <= a < j ==> !seq_lt(name_key(x), name_key(#[trigger] out@[a])),
            decreases out@.len() - j,
        {
            j = j + 1;
        }
        let ghost before = out@;
        out.insert(j, x);
        proof {
            broadcast use vstd::seq_lib::group_to_multiset_ensures;

            assert forall|key: Seq<char>|
                #[trigger] with_key(out@, key) == with_key(all.subrange(0, k + 1), key) by {
                lemma_insert_with_key(before, j as int, x, key);
                assert(all.subrange(0, k + 1) =~= all.subrange(0, k as int).push(x));
                all.subrange(0, k as int).lemma_filter_push(x, |y: StartupItem| name_key(y) == key);
            }

            assert(all.subrange(0, k + 1) =~= all.subrange(0, k as int).push(x));
            assert(out@ == before.insert(j as int, x));
            assert(before.insert(j as int, x).to_multiset() == before.to_multiset().insert(x));
            assert(all.subrange(0, k as int).push(x).to_multiset() == all.subrange(0, k as int).to_multiset().insert(x));
            assert forall|a: int, b: int|
                0 <= a < b < out@.len() implies !seq_lt(name_key(#[trigger] out@[b]), name_key(#[trigger] out@[a])) by {
                if b < j {
                    assert(out@[a] == before[a] && out@[b] == before[b]);
                } else if b == j {
                    assert(out@[a] == before[a]);
                } else if a == j {
                    assert(out@[b] == before[b - 1]);
                    if seq_lt(name_key(before[b - 1]), name_key(x)) {
                        assert(j < before.len());
                        assert(seq_lt(name_key(x), name_key(before[j as int])));
                        if b - 1 > j {
                            assert(!seq_lt(name_key(before[b - 1]), name_key(before[j as int])));
                        }
                        lemma_seq_lt_transitive(name_key(before[b - 1]), name_key(x), name_key(before[j as int]));
                        crate::disk::lemma_seq_lt_irreflexive(name_key(before[j as int]));
                    }
                } else if a < j {
                    assert(out@[a] == before[a] && out@[b] == before[b - 1]);
                } else {
                    assert(out@[a] == before[a - 1] && out@[b] == before[b - 1]);
                }
            }
        }
    }
    assert(all.subrange(0, all.len() as int) =~= all);
    out
}

/// An ASCII letter.
pub open spec fn ascii_alpha(b: u8) -> bool {
    (65 <= b <= 90) || (97 <= b <= 122)
}

/// An ASCII control byte.
pub open spec fn ascii_control(b: u8) -> bool {
    b < 32 || b == 127
}

/// A UTF-16LE drive prefix `X:\` starts at byte `i`.
pub open spec fn drive_at(bytes: Seq<u8>, i: int) -> bool {
    0 <= i && i + 5 < bytes.len() && bytes[i + 1] == 0 && bytes[i + 2] == 58 && bytes[i + 3] == 0
        && bytes[i + 4] == 92 && bytes[i + 5] == 0 && ascii_alpha(bytes[i])
}

/// A UTF-16LE unit at `j` continues a path: low byte printable (not NUL, not control),
/// high byte zero.
pub open spec fn path_unit_at(bytes: Seq<u8>, j: int) -> bool {
    0 <= j && j + 1 < bytes.len() && bytes[j + 1] == 0 && bytes[j] != 0 && !ascii_control(bytes[j])
}

/// The characters of the path units from `j` on.
pub open spec fn path_run(bytes: Seq<u8>, j: int) -> Seq<char>
    decreases bytes.len() - j,
{
    if path_unit_at(bytes, j) {
        seq![bytes[j] as char] + path_run(bytes, j + 2)
    } else {
        Seq::empty()
    }
}

/// Where the path units from `j` on end.
pub open spec fn path_run_end(bytes: Seq<u8>, j: int) -> int
    decreases bytes.len() - j,
{
    if path_unit_at(bytes, j) {
        path_run_end(bytes, j + 2)
    } else {
        j
    }
}

/// The absolute paths found in a shortcut's bytes from `i` on (stepping two bytes at a
/// time): each UTF-16LE `X:\` followed by at least one path unit gives a candidate, and
/// the scan resumes after it.
pub open spec fn lnk_scan(bytes: Seq<u8>, i: int) -> Seq<Seq<char>>
    decreases bytes.len() + 2 - i,
{
    if i < 0 || i + 5 >= bytes.len() {
        Seq::empty()
    } else if drive_at(bytes, i) {
        proof {
            lemma_run_end(bytes, i + 6);
        }
        let run = path_run(bytes, i + 6);
        let rest = lnk_scan(bytes, path_run_end(bytes, i + 6) + 2);
        if run.len() > 0 {
            seq![seq![bytes[i] as char, ':', '\\'] + run] + rest
        } else {
            rest
        }
    } else {
        lnk_scan(bytes, i + 2)
    }
}

pub proof fn lemma_run_end(bytes: Seq<u8>, j: int)
    requires
        0 <= j <= bytes.len(),
    ensures
        j <= path_run_end(bytes, j) <= bytes.len(),
    decreases bytes.len() - j,
{
    if path_unit_at(bytes, j) {
        lemma_run_end(bytes, j + 2);
    }
}

fn read_run(bytes: &[u8], j0: usize) -> (r: (Vec<char>, usize))
    requires
        j0 <= bytes@.len(),
    ensures
        r.0@ == path_run(bytes@, j0 as int),
        r.1 == path_run_end(bytes@, j0 as int),
{
    let n = bytes.len();
    let mut acc: Vec<char> = Vec::new();
    let mut j: usize = j0;
    while j < n && n - j > 1 && bytes[j + 1] == 0 && bytes[j] != 0 && !(bytes[j] < 32 || bytes[j] == 127)
        invariant
            n == bytes@.len(),
            j0 <= j <= n,
            acc@ + path_run(bytes@, j as int) == path_run(bytes@, j0 as int),
            path_run_end(bytes@, j as int) == path_run_end(bytes@, j0 as int),
        decreases n - j,
    {
        let ghost before = acc@;
        assert(path_unit_at(bytes@, j as int));
        acc.push(bytes[j] as char);
        assert(acc@ + path_run(bytes@, j + 2) =~= before + path_run(bytes@, j as int));
        j = j + 2;
    }
    assert(!path_unit_at(bytes@, j as int));
    assert(acc@ + Seq::<char>::empty() =~= acc@);
    (acc, j)
}

/// The candidate target paths of a shortcut (`.lnk`) file's bytes.
pub fn lnk_candidates(bytes: &[u8]) -> (r: Vec<String>)
    ensures
        r.deep_view() == lnk_scan(bytes@, 0),
{
    let n = bytes.len();
    let mut out: Vec<String> = Vec::new();
    let mut i: usize = 0;
    assert(out.deep_view() + lnk_scan(bytes@, 0) =~= lnk_scan(bytes@, 0));
    while i < n && n - i > 5
        invariant
            n == bytes@.len(),
            out.deep_view() + lnk_scan(bytes@, i as int) == lnk_scan(bytes@, 0),
        decreases n - i,
    {
        let ghost before = out.deep_view();
        if bytes[i + 1] == 0 && bytes[i + 2] == 58 && bytes[i + 3] == 0 && bytes[i + 4] == 92
            && bytes[i + 5] == 0 && ((65 <= bytes[i] && bytes[i] <= 90) || (97 <= bytes[i]
            && bytes[i] <= 122)) {
            assert(drive_at(bytes@, i as int));
            proof {
                lemma_run_end(bytes@, i + 6);
            }
            let (run, end) = read_run(bytes, i + 6);
            if run.len() > 0 {
                let mut path: Vec<char> = Vec::new();
                path.push(bytes[i] as char);
                path.push(':');
                path.push('\\');
                push_all(&mut path, &run);
                out.push(string_of(&path));
                assert(path@ =~= seq![bytes@[i as int] as char, ':', '\\'] + run@);
                assert(out.deep_view() =~= before.push(path@));
                assert(out.deep_view() + lnk_scan(bytes@, end + 2) =~= before + lnk_scan(bytes@, i as int));
            } else {
                assert(out.deep_view() + lnk_scan(bytes@, end + 2) =~= before + lnk_scan(bytes@, i as int));
            }
            if end >= n - 1 {
                assert(lnk_scan(bytes@, end + 2) =~= Seq::<Seq<char>>::empty());
                assert(lnk_scan(bytes@, n as int) =~= Seq::<Seq<char>>::empty());
                i = n;
            } else {
                i = end + 2;
            }
        } else {
            assert(!drive_at(bytes@, i as int));
            i = i + 2;
        }
    }
    assert(lnk_scan(bytes@, i as int) =~= Seq::<Seq<char>>::empty());
    assert(out.deep_view() + Seq::<Seq<char>>::empty() =~= out.deep_view());
    out
}

/// The shortcut target: the first candidate that exists (`exists[i]` tells whether
/// candidate `i` exists), else the first candidate.
pub fn pick_lnk_target(candidates: &Vec<String>, exists: &Vec<bool>) -> (r: Option<String>)
    requires
        exists@.len() == candidates@.len(),
    ensures
        (exists|i: int| 0 <= i < exists@.len() && exists@[i]) ==> (r matches Some(p) && exists|i: int|
            0 <= i < exists@.len() && exists@[i] && p@ == candidates@[i]@ && forall|j: int|
                0 <= j < i ==> !exists@[j]),
        !(exists|i: int| 0 <= i < exists@.len() && exists@[i]) && candidates@.len() > 0 ==> (r matches Some(
            p,
        ) && p@ == candidates@[0]@),
        candidates@.len() == 0 ==> r is None,
{
    let mut i: usize = 0;
    while i < candidates.len()
        invariant
            exists@.len() == candidates@.len(),
            i <= candidates@.len(),
            forall|j: int| 0 <= j < i ==> !exists@[j],
        decreases candidates@.len() - i,
    {
        if exists[i] {
            return Some(crate::text::string_from(candidates[i].as_str()));
        }
        i = i + 1;
    }
    if candidates.len() > 0 {
        Some(crate::text::string_from(candidates[0].as_str()))
    } else {
        None
    }
}

/// The base64 character of a six-bit value.
pub open spec fn b64_char(v: u8) -> char {
    if v < 26 {
        (65 + v) as char
    } else if v < 52 {
        (97 + v - 26) as char
    } else if v < 62 {
        (48 + v - 52) as char
    } else if v == 62 {
        '+'
    } else {
        '/'
    }
}

/// The six-bit value of a base64 character, if it is one.
pub open spec fn b64_val(c: char) -> Option<u8> {
    if 'A' <= c && c <= 'Z' {
        Some((c as u32 - 65) as u8)
    } else if 'a' <= c && c <= 'z' {
        Some((c as u32 - 97 + 26) as u8)
    } else if '0' <= c && c <= '9' {
        Some((c as u32 - 48 + 52) as u8)
    } else if c == '+' {
        Some(62u8)
    } else if c == '/' {
        Some(63u8)
    } else {
        None
    }
}

/// The four characters of a full three-byte group.
pub open spec fn enc3(b0: u8, b1: u8, b2: u8) -> Seq<char> {
    seq![
        b64_char(b0 >> 2),
        b64_char(((b0 & 3) << 4) | (b1 >> 4)),
        b64_char(((b1 & 15) << 2) | (b2 >> 6)),
        b64_char(b2 & 63),
    ]
}

/// Standard base64 with `=` padding.
pub open spec fn b64_encode_spec(d: Seq<u8>) -> Seq<char>
    decreases d.len(),
{
    if d.len() == 0 {
        Seq::empty()
    } else if d.len() == 1 {
        seq![b64_char(d[0] >> 2), b64_char((d[0] & 3) << 4), '=', '=']
    } else if d.len() == 2 {
        seq![b64_char(d[0] >> 2), b64_char(((d[0] & 3) << 4) | (d[1] >> 4)), b64_char((d[1] & 15) << 2), '=']
    } else {
        enc3(d[0], d[1], d[2]) + b64_encode_spec(d.subrange(3, d.len() as int))
    }
}

/// The bytes of four six-bit values.
pub open spec fn dec4(v0: u8, v1: u8, v2: u8, v3: u8) -> Seq<u8> {
    seq![((v0 << 2) | (v1 >> 4)) as u8, (((v1 & 15) << 4) | (v2 >> 2)) as u8, (((v2 & 3) << 6) | v3) as u8]
}

/// Decoding six-bit values, four at a time: a lone trailing value is an error, two or
/// three trailing values give one or two bytes.
pub open spec fn decode_vals(v: Seq<u8>) -> Option<Seq<u8>>
    decreases v.len(),
{
    if v.len() == 0 {
        Some(Seq::empty())
    } else if v.len() == 1 {
        None
    } else if v.len() == 2 {
        Some(seq![((v[0] << 2) | (v[1] >> 4)) as u8])
    } else if v.len() == 3 {
        Some(seq![((v[0] << 2) | (v[1] >> 4)) as u8, (((v[1] & 15) << 4) | (v[2] >> 2)) as u8])
    } else {
        match decode_vals(v.subrange(4, v.len() as int)) {
            Some(rest) => Some(dec4(v[0], v[1], v[2], v[3]) + rest),
            None => None,
        }
    }
}

/// Standard base64 decoding: everything from the first `=` on is ignored; any other
/// character outside the alphabet is an error.
pub open spec fn b64_decode_spec(s: Seq<char>) -> Option<Seq<u8>> {
    let body = before_char(s, '=');
    if forall|i: int| 0 <= i < body.len() ==> (#[trigger] b64_val(body[i])) is Some {
        decode_vals(body.map_values(|c: char| b64_val(c)->0))
    } else {
        None
    }
}

fn b64_char_exec(v: u8) -> (c: char)
    requires
        v < 64,
    ensures
        c == b64_char(v),
{
    if v < 26 {
        (65 + v) as char
    } else if v < 52 {
        (97 + v - 26) as char
    } else if v < 62 {
        (48 + v - 52) as char
    } else if v == 62 {
        '+'
    } else {
        '/'
    }
}

fn b64_val_exec(c: char) -> (r: Option<u8>)
    ensures
        r == b64_val(c),
{
    if 'A' <= c && c <= 'Z' {
        Some((c as u32 - 65) as u8)
    } else if 'a' <= c && c <= 'z' {
        Some((c as u32 - 97 + 26) as u8)
    } else if '0' <= c && c <= '9' {
        Some((c as u32 - 48 + 52) as u8)
    } else if c == '+' {
        Some(62)
    } else if c == '/' {
        Some(63)
    } else {
        None
    }
}

proof fn lemma_b64_bits(b0: u8, b1: u8, b2: u8)
    ensures
        b0 >> 2 < 64,
        ((b0 & 3) << 4) | (b1 >> 4) < 64,
        ((b1 & 15) << 2) | (b2 >> 6) < 64,
        b2 & 63 < 64,
        (b0 & 3) << 4 < 64,
        (b1 & 15) << 2 < 64,
{
    assert(b0 >> 2 < 64) by (bit_vector);
    assert(((b0 & 3) << 4) | (b1 >> 4) < 64) by (bit_vector);
    assert(((b1 & 15) << 2) | (b2 >> 6) < 64) by (bit_vector);
    assert(b2 & 63 < 64) by (bit_vector);
    assert((b0 & 3) << 4 < 64) by (bit_vector);
    assert((b1 & 15) << 2 < 64) by (bit_vector);
}

/// Standard base64 encoding (the transport of requests to the elevated helper).
pub fn base64_encode(data: &[u8]) -> (r: String)
    ensures
        r@ == b64_encode_spec(data@),
{
    let n = data.len();
    let mut out: Vec<char> = Vec::new();
    let mut i: usize = 0;
    assert(data@.subrange(0, n as int) =~= data@);
    assert(out@ + b64_encode_spec(data@) =~= b64_encode_spec(data@));
    while n - i >= 3
        invariant
            n == data@.len(),
            i <= n,
            out@ + b64_encode_spec(data@.subrange(i as int, n as int)) == b64_encode_spec(data@),
        decreases n - i,
    {
        let ghost rest = data@.subrange(i as int, n as int);
        let (b0, b1, b2) = (data[i], data[i + 1], data[i + 2]);
        proof {
            lemma_b64_bits(b0, b1, b2);
        }
        let ghost before = out@;
        out.push(b64_char_exec(b0 >> 2));
        out.push(b64_char_exec(((b0 & 3) << 4) | (b1 >> 4)));
        out.push(b64_char_exec(((b1 & 15) << 2) | (b2 >> 6)));
        out.push(b64_char_exec(b2 & 63));
        assert(out@ =~= before + enc3(b0, b1, b2));
        assert(rest.subrange(3, rest.len() as int) =~= data@.subrange(i + 3, n as int));
        assert(rest[0] == b0 && rest[1] == b1 && rest[2] == b2);
        i = i + 3;
    }
    let ghost rest = data@.subrange(i as int, n as int);
    let ghost before = out@;
    if n - i == 1 {
        let b0 = data[i];
        proof {
            lemma_b64_bits(b0, 0, 0);
        }
        out.push(b64_char_exec(b0 >> 2));
        out.push(b64_char_exec((b0 & 3) << 4));
        out.push('=');
        out.push('=');
        assert(out@ =~= before + b64_encode_spec(rest));
    } else if n - i == 2 {
        let (b0, b1) = (data[i], data[i + 1]);
        proof {
            lemma_b64_bits(b0, b1, 0);
        }
        out.push(b64_char_exec(b0 >> 2));
        out.push(b64_char_exec(((b0 & 3) << 4) | (b1 >> 4)));
        out.push(b64_char_exec((b1 & 15) << 2));
        out.push('=');
        assert(out@ =~= before + b64_encode_spec(rest));
    } else {
        assert(rest.len() == 0);
        assert(out@ =~= before + b64_encode_spec(rest));
    }
    string_of(&out)
}

/// Standard base64 decoding; `None` for a character outside the alphabet (before any
/// `=`) or a lone trailing character.
pub fn base64_decode(s: &str) -> (r: Option<Vec<u8>>)
    ensures
        r matches Some(v) ==> b64_decode_spec(s@) == Some(v@),
        r is None ==> b64_decode_spec(s@) is None,
{
    let c = chars_of(s);
    let body = take_before(&c, '=');
    let mut vals: Vec<u8> = Vec::new();
    let mut i: usize = 0;
    while i < body.len()
        invariant
            i <= body@.len(),
            body@ == before_char(s@, '='),
            vals@.len() == i,
            forall|k: int| 0 <= k < i ==> (#[trigger] b64_val(body@[k])) is Some && vals@[k] == b64_val(body@[k])->0,
        decreases body@.len() - i,
    {
        match b64_val_exec(body[i]) {
            Some(v) => {
                vals.push(v);
            },
            None => {
                return None;
            },
        }
        i = i + 1;
    }
    assert(vals@ =~= body@.map_values(|ch: char| b64_val(ch)->0));
    let n = vals.len();
    let mut out: Vec<u8> = Vec::new();
    let mut k: usize = 0;
    assert(vals@.subrange(0, n as int) =~= vals@);
    proof {
        match decode_vals(vals@) {
            Some(r) => {
                assert(out@ + r =~= r);
            },
            None => {},
        }
    }
    while n - k >= 4
        invariant
            n == vals@.len(),
            k <= n,
            forall|j: int| 0 <= j < n ==> vals@[j] < 64,
            decode_vals(vals@) == (match decode_vals(vals@.subrange(k as int, n as int)) {
                Some(rest) => Some(out@ + rest),
                None => None::<Seq<u8>>,
            }),
        decreases n - k,
    {
        let ghost rest = vals@.subrange(k as int, n as int);
        let (v0, v1, v2, v3) = (vals[k], vals[k + 1], vals[k + 2], vals[k + 3]);
        let ghost before = out@;
        out.push((v0 << 2) | (v1 >> 4));
        out.push(((v1 & 15) << 4) | (v2 >> 2));
        out.push(((v2 & 3) << 6) | v3);
        assert(out@ =~= before + dec4(v0, v1, v2, v3));
        assert(rest.subrange(4, rest.len() as int) =~= vals@.subrange(k + 4, n as int));
        assert(rest[0] == v0 && rest[1] == v1 && rest[2] == v2 && rest[3] == v3);
        proof {
            match decode_vals(vals@.subrange(k + 4, n as int)) {
                Some(r2) => {
                    assert(before + (dec4(v0, v1, v2, v3) + r2) =~= out@ + r2);
                },
                None => {},
            }
        }
        k = k + 4;
    }
    let ghost rest = vals@.subrange(k as int, n as int);
    let rem = n - k;
    if rem == 1 {
        return None;
    } else if rem == 2 {
        let (v0, v1) = (vals[k], vals[k + 1]);
        out.push((v0 << 2) | (v1 >> 4));
    } else if rem == 3 {
        let (v0, v1, v2) = (vals[k], vals[k + 1], vals[k + 2]);
        out.push((v0 << 2) | (v1 >> 4));
        out.push(((v1 & 15) << 4) | (v2 >> 2));
    }
    proof {
        assert(rest.len() == rem);
        if rem == 0 {
            assert(out@ + Seq::<u8>::empty() =~= out@);
        }
    }
    Some(out)
}

/// The six-bit values that `b64_encode_spec` turns into characters (before padding).
pub open spec fn sextets(d: Seq<u8>) -> Seq<u8>
    decreases d.len(),
{
    if d.len() == 0 {
        Seq::empty()
    } else if d.len() == 1 {
        seq![d[0] >> 2, (d[0] & 3) << 4]
    } else if d.len() == 2 {
        seq![d[0] >> 2, ((d[0] & 3) << 4) | (d[1] >> 4), (d[1] & 15) << 2]
    } else {
        seq![d[0] >> 2, ((d[0] & 3) << 4) | (d[1] >> 4), ((d[1] & 15) << 2) | (d[2] >> 6), d[2] & 63]
            + sextets(d.subrange(3, d.len() as int))
    }
}

/// The padding of an encoding of `n` bytes.
pub open spec fn b64_pad(n: nat) -> Seq<char> {
    if n % 3 == 1 {
        seq!['=', '=']
    } else if n % 3 == 2 {
        seq!['=']
    } else {
        Seq::empty()
    }
}

proof fn lemma_char_val(v: u8)
    requires
        v < 64,
    ensures
        b64_val(b64_char(v)) == Some(v),
        b64_char(v) != '=',
{
}

proof fn lemma_sextets_small(d: Seq<u8>)
    ensures
        forall|i: int| 0 <= i < sextets(d).len() ==> #[trigger] sextets(d)[i] < 64,
    decreases d.len(),
{
    if d.len() >= 1 {
        lemma_b64_bits(d[0], if d.len() >= 2 { d[1] } else { 0 }, if d.len() >= 3 { d[2] } else { 0 });
    }
    if d.len() >= 3 {
        lemma_sextets_small(d.subrange(3, d.len() as int));
        let head = seq![d[0] >> 2, ((d[0] & 3) << 4) | (d[1] >> 4), ((d[1] & 15) << 2) | (d[2] >> 6), d[2] & 63];
        assert forall|i: int| 0 <= i < sextets(d).len() implies #[trigger] sextets(d)[i] < 64 by {
            if i >= 4 {
                assert(sextets(d)[i] == sextets(d.subrange(3, d.len() as int))[i - 4]);
            }
        }
    }
}

proof fn lemma_enc_shape(d: Seq<u8>)
    ensures
        b64_encode_spec(d) == sextets(d).map_values(|v: u8| b64_char(v)) + b64_pad(d.len()),
    decreases d.len(),
{
    if d.len() >= 3 {
        let rest = d.subrange(3, d.len() as int);
        lemma_enc_shape(rest);
        assert(rest.len() % 3 == d.len() % 3);
        let head = seq![d[0] >> 2, ((d[0] & 3) << 4) | (d[1] >> 4), ((d[1] & 15) << 2) | (d[2] >> 6), d[2] & 63];
        assert((head + sextets(rest)).map_values(|v: u8| b64_char(v)) =~= head.map_values(
            |v: u8| b64_char(v),
        ) + sextets(rest).map_values(|v: u8| b64_char(v)));
        assert(head.map_values(|v: u8| b64_char(v)) =~= enc3(d[0], d[1], d[2]));
        assert(b64_encode_spec(d) =~= sextets(d).map_values(|v: u8| b64_char(v)) + b64_pad(d.len()));
    } else {
        assert(b64_encode_spec(d) =~= sextets(d).map_values(|v: u8| b64_char(v)) + b64_pad(d.len()));
    }
}

proof fn lemma_first_occ_from_none(s: Seq<char>, p: Seq<char>, from: int)
    requires
        from >= 0,
        forall|j: int| from <= j ==> !occurs_at(s, p, j),
    ensures
        crate::text::first_occurrence_from(s, p, from) is None,
    decreases s.len() + 1 - from,
{
    if !(from > s.len() || from + p.len() > s.len()) {
        lemma_first_occ_from_none(s, p, from + 1);
    }
}

proof fn lemma_first_occ_from_at(s: Seq<char>, p: Seq<char>, from: int, k: int)
    requires
        0 <= from <= k,
        occurs_at(s, p, k),
        forall|j: int| from <= j < k ==> !occurs_at(s, p, j),
    ensures
        crate::text::first_occurrence_from(s, p, from) == Some(k),
    decreases k - from,
{
    if from < k {
        lemma_first_occ_from_at(s, p, from + 1, k);
    }
}

proof fn lemma_before_pad(x: Seq<char>, pad: Seq<char>)
    requires
        !x.contains('='),
        pad.len() == 0 || pad[0] == '=',
    ensures
        before_char(x + pad, '=') == x,
{
    let s = x + pad;
    let p = seq!['='];
    assert forall|j: int| 0 <= j < x.len() implies !occurs_at(s, p, j) by {
        if occurs_at(s, p, j) {
            assert(s.subrange(j, j + 1)[0] == s[j]);
            assert(x[j] == '=');
        }
    }
    if pad.len() == 0 {
        assert forall|j: int| 0 <= j implies !occurs_at(s, p, j) by {
            if j < x.len() {
            } else {
                assert(s.len() == x.len());
            }
        }
        lemma_first_occ_from_none(s, p, 0);
        assert(s =~= x);
    } else {
        assert(s.subrange(x.len() as int, x.len() as int + 1) =~= p);
        lemma_first_occ_from_at(s, p, 0, x.len() as int);
        assert(s.subrange(0, x.len() as int) =~= x);
    }
}

proof fn lemma_dec_sextets(d: Seq<u8>)
    ensures
        decode_vals(sextets(d)) == Some(d),
    decreases d.len(),
{
    if d.len() == 1 {
        let b0 = d[0];
        assert((((b0 >> 2) << 2) | (((b0 & 3) << 4) >> 4)) as u8 == b0) by (bit_vector);
        assert(decode_vals(sextets(d)).unwrap() =~= d);
    } else if d.len() == 2 {
        let (b0, b1) = (d[0], d[1]);
        assert((((b0 >> 2) << 2) | ((((b0 & 3) << 4) | (b1 >> 4)) >> 4)) as u8 == b0) by (bit_vector);
        assert(((((((b0 & 3) << 4) | (b1 >> 4)) & 15) << 4) | (((b1 & 15) << 2) >> 2)) as u8 == b1) by (bit_vector);
        assert(decode_vals(sextets(d)).unwrap() =~= d);
    } else if d.len() >= 3 {
        let (b0, b1, b2) = (d[0], d[1], d[2]);
        let rest = d.subrange(3, d.len() as int);
        lemma_dec_sextets(rest);
        let v = sextets(d);
        assert(v.subrange(4, v.len() as int) =~= sextets(rest));
        assert((((b0 >> 2) << 2) | ((((b0 & 3) << 4) | (b1 >> 4)) >> 4)) as u8 == b0) by (bit_vector);
        assert(((((((b0 & 3) << 4) | (b1 >> 4)) & 15) << 4) | ((((b1 & 15) << 2) | (b2 >> 6)) >> 2)) as u8 == b1) by (bit_vector);
        assert((((((((b1 & 15) << 2) | (b2 >> 6)) & 3) << 6) | (b2 & 63)) as u8) == b2) by (bit_vector);
        assert(dec4(v[0], v[1], v[2], v[3]) =~= seq![b0, b1, b2]);
        assert(seq![b0, b1, b2] + rest =~= d);
    }
}

/// The law of the helper's request transport: decoding an encoding gives the bytes back.
pub proof fn law_base64_roundtrip(d: Seq<u8>)
    ensures
        b64_decode_spec(b64_encode_spec(d)) == Some(d),
{
    lemma_enc_shape(d);
    lemma_sextets_small(d);
    let v = sextets(d);
    let x = v.map_values(|w: u8| b64_char(w));
    assert(!x.contains('=')) by {
        if x.contains('=') {
            let k = choose|k: int| 0 <= k < x.len() && x[k] == '=';
            lemma_char_val(v[k]);
        }
    }
    lemma_before_pad(x, b64_pad(d.len()));
    assert forall|i: int| 0 <= i < x.len() implies (#[trigger] b64_val(x[i])) is Some by {
        lemma_char_val(v[i]);
    }
    assert(x.map_values(|c: char| b64_val(c)->0) =~= v) by {
        assert forall|i: int| 0 <= i < v.len() implies x.map_values(|c: char| b64_val(c)->0)[i] == v[i] by {
            lemma_char_val(v[i]);
        }
    }
    lemma_dec_sextets(d);
}

/// The little-endian bytes of a 16-bit value.
pub open spec fn le16(x: u16) -> Seq<u8> {
    seq![(x & 0xff) as u8, ((x >> 8) & 0xff) as u8]
}

/// The little-endian bytes of a 32-bit value.
pub open spec fn le32(x: u32) -> Seq<u8> {
    seq![(x & 0xff) as u8, ((x >> 8) & 0xff) as u8, ((x >> 16) & 0xff) as u8, ((x >> 24) & 0xff) as u8]
}

/// `n` zero bytes.
pub open spec fn zeros(n: nat) -> Seq<u8> {
    Seq::new(n, |i: int| 0u8)
}

/// Bytes per row of the AND mask of an icon `width` pixels wide.
pub open spec fn mask_row(width: u32) -> int {
    ((width as int + 31) / 32) * 4
}

/// The ICO file of one 32-bit image: the icon directory, its entry, a
/// `BITMAPINFOHEADER` of double height, the BGRA pixels and an all-zero AND mask.
pub open spec fn ico_spec(width: u32, height: u32, bgra: Seq<u8>) -> Seq<u8> {
    let mask_len = mask_row(width) * height;
    let data_len = 40 + bgra.len() + mask_len;
    seq![0u8, 0, 1, 0, 1, 0] + seq![
        if width >= 256 { 0u8 } else { width as u8 },
        if height >= 256 { 0u8 } else { height as u8 },
        0u8,
        0u8,
    ] + le16(1) + le16(32) + le32(data_len as u32) + le32(22) + le32(40) + le32(width) + le32(
        (((height as i32) * 2) as i32) as u32,
    ) + le16(1) + le16(32) + le32(0) + le32(bgra.len() as u32) + zeros(16) + bgra + zeros(
        mask_len as nat,
    )
}

fn push_le16(out: &mut Vec<u8>, x: u16)
    ensures
        final(out)@ == old(out)@ + le16(x),
{
    let ghost before = out@;
    out.push((x & 0xff) as u8);
    out.push(((x >> 8) & 0xff) as u8);
    assert(out@ =~= before + le16(x));
}

fn push_le32(out: &mut Vec<u8>, x: u32)
    ensures
        final(out)@ == old(out)@ + le32(x),
{
    let ghost before = out@;
    out.push((x & 0xff) as u8);
    out.push(((x >> 8) & 0xff) as u8);
    out.push(((x >> 16) & 0xff) as u8);
    out.push(((x >> 24) & 0xff) as u8);
    assert(out@ =~= before + le32(x));
}

fn push_zeros(out: &mut Vec<u8>, n: usize)
    ensures
        final(out)@ == old(out)@ + zeros(n as nat),
{
    let ghost before = out@;
    let mut i: usize = 0;
    while i < n
        invariant
            i <= n,
            out@ == before + zeros(i as nat),
        decreases n - i,
    {
        out.push(0);
        i = i + 1;
        assert(out@ =~= before + zeros(i as nat));
    }
}

/// Assembles an ICO file from 32-bit BGRA pixels (used for application icons). The
/// mask size must fit in 32 bits and the doubled height in an `i32`, as std's
/// arithmetic would otherwise overflow.
pub fn ico_from_bgra(width: u32, height: u32, bgra: &[u8]) -> (r: Vec<u8>)
    requires
        mask_row(width) * height <= u32::MAX,
        40 + bgra@.len() + mask_row(width) * height <= usize::MAX,
        -0x4000_0000 <= (height as i32) < 0x4000_0000,
    ensures
        r@ == ico_spec(width, height, bgra@),
{
    let row: u32 = (width / 32 + if width % 32 == 0 { 0 } else { 1 }) * 4;
    assert(row == mask_row(width)) by (nonlinear_arith)
        requires
            row == (width / 32 + if width % 32 == 0 { 0int } else { 1 }) * 4,
    ;
    let mask_len: usize = (row * height) as usize;
    let data_len: usize = 40 + bgra.len() + mask_len;
    let mut out: Vec<u8> = Vec::new();
    out.push(0);
    out.push(0);
    out.push(1);
    out.push(0);
    out.push(1);
    out.push(0);
    out.push(if width >= 256 { 0 } else { width as u8 });
    out.push(if height >= 256 { 0 } else { height as u8 });
    out.push(0);
    out.push(0);
    push_le16(&mut out, 1);
    push_le16(&mut out, 32);
    push_le32(&mut out, data_len as u32);
    push_le32(&mut out, 22);
    push_le32(&mut out, 40);
    push_le32(&mut out, width);
    let h2: i32 = (height as i32) * 2;
    push_le32(&mut out, h2 as u32);
    push_le16(&mut out, 1);
    push_le16(&mut out, 32);
    push_le32(&mut out, 0);
    push_le32(&mut out, bgra.len() as u32);
    push_zeros(&mut out, 16);
    let ghost before_pixels = out@;
    let mut i: usize = 0;
    while i < bgra.len()
        invariant
            i <= bgra@.len(),
            out@ == before_pixels + bgra@.subrange(0, i as int),
        decreases bgra@.len() - i,
    {
        out.push(bgra[i]);
        i = i + 1;
        assert(out@ =~= before_pixels + bgra@.subrange(0, i as int));
    }
    assert(bgra@.subrange(0, bgra@.len() as int) =~= bgra@);
    push_zeros(&mut out, mask_len);
    assert(out@ =~= ico_spec(width, height, bgra@));
    out
}

/// The data URL of an ICO file.
pub fn icon_data_url(ico: &[u8]) -> (r: String)
    ensures
        r@ == "data:image/x-icon;base64,"@ + b64_encode_spec(ico@),
{
    let mut v = chars_of("data:image/x-icon;base64,");
    let e = base64_encode(ico);
    push_str(&mut v, e.as_str());
    string_of(&v)
}

/// The command line of the elevated helper: its flag, the action, the base64 request
/// and the quoted result file.
pub fn elevated_params(action: StartupAction, request_b64: &str, result_file: &str) -> (r: String)
    ensures
        r@ == "--elevated-startup "@ + action.name_spec() + " "@ + request_b64@ + " \""@ + result_file@
            + "\""@,
{
    let mut v = chars_of("--elevated-startup ");
    push_str(&mut v, action.as_str());
    push_str(&mut v, " ");
    push_str(&mut v, request_b64);
    push_str(&mut v, " \"");
    push_str(&mut v, result_file);
    push_str(&mut v, "\"");
    string_of(&v)
}

/// What the elevated helper is asked: its action and the decoded request bytes; the
/// errors are `未知动作` for an unknown action and `请求解码失败` for a request that is
/// not base64.
pub fn decode_elevated_request(action: &str, request_b64: &str) -> (r: Result<(StartupAction, Vec<u8>), String>)
    ensures
        match StartupAction::parse_spec(action@) {
            None => r matches Err(e) && e@ == "未知动作"@,
            Some(a) => match b64_decode_spec(request_b64@) {
                None => r matches Err(e) && e@ == "请求解码失败"@,
                Some(bytes) => r matches Ok((a2, v)) && a2 == a && v@ == bytes,
            },
        },
{
    match StartupAction::parse(action) {
        None => Err("未知动作".to_owned()),
        Some(a) => match base64_decode(request_b64) {
            None => Err("请求解码失败".to_owned()),
            Some(bytes) => Ok((a, bytes)),
        },
    }
}

/// The outcome the elevated helper reported, from the `ok` and `error` fields of its
/// result: success only when `ok` is true; otherwise its error, `未知错误` when absent.
pub fn elevated_outcome(ok: Option<bool>, error: Option<String>) -> (r: Result<(), String>)
    ensures
        ok == Some(true) ==> r is Ok,
        ok != Some(true) ==> (r matches Err(e) && e@ == (match error {
            Some(m) => m@,
            None => "未知错误"@,
        })),
{
    if ok == Some(true) {
        Ok(())
    } else {
        match error {
            Some(m) => Err(m),
            None => Err("未知错误".to_owned()),
        }
    }
}

/// The exit code of the elevated helper: 0 on success, 1 on failure.
pub fn elevated_exit_code(outcome: &Result<(), String>) -> (code: i32)
    ensures
        code == (if outcome is Ok { 0i32 } else { 1i32 }),
{
    if outcome.is_ok() {
        0
    } else {
        1
    }
}

/// The error of launching the elevated helper, by `ShellExecuteW`'s return code: codes
/// above 32 mean success, any other code is reported with its number.
pub fn launch_error(code: i64) -> (r: Option<String>)
    ensures
        code > 32 ==> r is None,
        code <= 32 ==> (r matches Some(e) && e@ == "启动管理员进程失败（错误码 "@ + signed_decimal(code as int)
            + "）"@),
{
    if code > 32 {
        return None;
    }
    let mut v = chars_of("启动管理员进程失败（错误码 ");
    push_signed(&mut v, code);
    push_str(&mut v, "）");
    Some(string_of(&v))
}

/// The decimal text of an integer (with `-` when negative).
pub open spec fn signed_decimal(x: int) -> Seq<char> {
    if x < 0 {
        seq!['-'] + crate::cleanlog::decimal((-x) as nat)
    } else {
        crate::cleanlog::decimal(x as nat)
    }
}

fn push_signed(v: &mut Vec<char>, x: i64)
    ensures
        final(v)@ == old(v)@ + signed_decimal(x as int),
{
    let ghost before = v@;
    if x < 0 {
        v.push('-');
        let m: u64 = if x == i64::MIN {
            9_223_372_036_854_775_808u64
        } else {
            (-x) as u64
        };
        let d = crate::cleanlog::decimal_exec(m);
        push_all(v, &d);
        assert(v@ =~= before + signed_decimal(x as int));
    } else {
        let d = crate::cleanlog::decimal_exec(x as u64);
        push_all(v, &d);
    }
}

} // verus!
