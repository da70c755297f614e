//! Application settings and the small rules around them: the alert configuration, the
//! disk-analysis parameters of a user scan, the autostart command, the fallback to the
//! elevated helper, and the application's error type.

use vstd::prelude::*;
use crate::paths::{env_lookup, EnvVars, EnvView};
use crate::text::{chars_of, push_str, string_of};

verus! {

/// Application settings (alert thresholds and autostart).
#[derive(Clone, Copy, Debug)]
pub struct AppConfig {
    /// CPU alert threshold (percent).
    pub alert_cpu_pct: u8,
    /// Memory alert threshold (percent).
    pub alert_mem_pct: u8,
    /// Start with Windows.
    pub autostart: bool,
}

impl Default for AppConfig {
    fn default() -> (c: Self)
        ensures
            c.alert_cpu_pct == 80,
            c.alert_mem_pct == 85,
            !c.autostart,
    {
        AppConfig { alert_cpu_pct: 80, alert_mem_pct: 85, autostart: false }
    }
}

/// `x` limited to `[lo, hi]`.
pub open spec fn clamp_int(x: int, lo: int, hi: int) -> int {
    if x < lo {
        lo
    } else if x > hi {
        hi
    } else {
        x
    }
}

/// The parameters of a user-directory scan: the minimum large-file size in bytes (the
/// requested MiB, else the configured ones, limited to 50..=10000, times 1 MiB) and the
/// usage depth (requested, else configured, limited to 1..=5).
pub fn user_scan_params(
    min_bytes_mb: Option<u64>,
    max_depth: Option<usize>,
    configured: (u64, usize),
) -> (r: (u64, usize))
    ensures
        r.0 == clamp_int(
            match min_bytes_mb {
                Some(v) => v as int,
                None => configured.0 as int,
            },
            50,
            10_000,
        ) * 1_048_576,
        r.1 == clamp_int(
            match max_depth {
                Some(v) => v as int,
                None => configured.1 as int,
            },
            1,
            5,
        ),
{
    let mb = match min_bytes_mb {
        Some(v) => v,
        None => configured.0,
    };
    let mb = if mb < 50 {
        50
    } else if mb > 10_000 {
        10_000
    } else {
        mb
    };
    let depth = match max_depth {
        Some(v) => v,
        None => configured.1,
    };
    let depth = if depth < 1 {
        1
    } else if depth > 5 {
        5
    } else {
        depth
    };
    (mb * 1_048_576, depth)
}

/// The default root of a user scan: `USERPROFILE`, else `C:\`.
pub open spec fn user_root_spec(env: EnvView) -> Seq<char> {
    match env_lookup(env, "USERPROFILE"@) {
        Some(p) => p,
        None => "C:\\"@,
    }
}

/// The default root of a user scan.
pub fn user_profile_root(env: &EnvVars) -> (r: String)
    ensures
        r@ == user_root_spec(env@),
{
    match env.get(&chars_of("USERPROFILE")) {
        Some(p) => string_of(&p),
        None => "C:\\".to_owned(),
    }
}

/// The autostart command of the program at `exe`: its path in double quotes.
pub fn autostart_command(exe: &str) -> (r: String)
    ensures
        r@ == "\""@ + exe@ + "\""@,
{
    let mut v = chars_of("\"");
    push_str(&mut v, exe);
    push_str(&mut v, "\"");
    string_of(&v)
}

/// Whether a failed change of a startup item is retried through the elevated helper:
/// exactly when it failed and the item needs administrator rights.
pub fn needs_elevation(outcome: &Result<(), String>, requires_admin: bool) -> (b: bool)
    ensures
        b == (outcome is Err && requires_admin),
{
    outcome.is_err() && requires_admin
}

/// std's I/O error.
#[verifier::external_type_specification]
#[verifier::external_body]
pub struct ExIoError(std::io::Error);

/// The display text of an I/O error; for an operating-system error it is the system's
/// message, so nothing is stated of it.
#[verifier::external_body]
fn io_error_text(e: &std::io::Error) -> (r: String) {
    format!("{e}")
}

/// The application's errors.
#[derive(Debug)]
pub enum PonyError {
    Io(std::io::Error),
    Process(String),
    Cleanup(String),
}

impl PonyError {
    /// An I/O error.
    pub fn from_io(e: std::io::Error) -> (r: Self)
        ensures
            r == PonyError::Io(e),
    {
        PonyError::Io(e)
    }

    /// The error's message: `IO error: `, `Process error: ` or `Cleanup error: ` and the
    /// detail.
    pub fn message(&self) -> (r: String)
        ensures
            self matches PonyError::Process(s) ==> r@ == "Process error: "@ + s@,
            self matches PonyError::Cleanup(s) ==> r@ == "Cleanup error: "@ + s@,
            self is Io ==> crate::text::starts_with(r@, "IO error: "@),
    {
        match self {
            PonyError::Io(e) => {
                let mut v = chars_of("IO error: ");
                let t = io_error_text(e);
                push_str(&mut v, t.as_str());
                let r = string_of(&v);
                assert(crate::text::starts_with(r@, "IO error: "@)) by {
                    assert(r@.subrange(0, "IO error: "@.len() as int) =~= "IO error: "@);
                }
                r
            },
            PonyError::Process(s) => {
                let mut v = chars_of("Process error: ");
                push_str(&mut v, s.as_str());
                string_of(&v)
            },
            PonyError::Cleanup(s) => {
                let mut v = chars_of("Cleanup error: ");
                push_str(&mut v, s.as_str());
                string_of(&v)
            },
        }
    }
}

} // verus!
