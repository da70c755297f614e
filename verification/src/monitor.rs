//! Process actions of the monitor: killing a process after checking that its pid
//! still names the expected program, and which processes a memory trim skips.

use vstd::prelude::*;
use crate::cleanlog::{decimal, decimal_exec};
use crate::text::{chars_of, push_all, push_str, same, string_of};

verus! {

/// sysinfo's process table.
#[verifier::external_type_specification]
#[verifier::external_body]
pub struct ExSystem(sysinfo::System);

/// The pids for which sysinfo's process table `system` holds a process
/// (`System::process` of `Pid::from_u32(pid)` is `Some`): a lookup in the map the table
/// was filled with.
pub uninterp spec fn process_pids(system: sysinfo::System) -> Set<u32>;

/// The names that sysinfo's process table `system` holds, by pid (`Process::name` of the
/// process that `System::process` finds: a field stored in the table).
pub uninterp spec fn process_names(system: sysinfo::System) -> Map<u32, Seq<char>>;

/// The name of process `pid` in the table (`System::process`, `Process::name`): present
/// exactly when the table holds the pid, and then the name the table holds for it.
#[verifier::external_body]
fn process_name(system: &sysinfo::System, pid: u32) -> (r: Option<String>)
    ensures
        r is Some <==> process_pids(*system).contains(pid),
        r matches Some(n) ==> n@ == process_names(*system)[pid],
{
    system.process(sysinfo::Pid::from_u32(pid)).map(|p| p.name().to_string())
}

/// Sends the kill signal to process `pid` (`Process::kill`): whether it was sent; false
/// when the table has no such process. Otherwise the outcome depends on the machine.
#[verifier::external_body]
fn kill_pid(system: &sysinfo::System, pid: u32) -> (r: bool)
    ensures
        !process_pids(*system).contains(pid) ==> !r,
{
    system.process(sysinfo::Pid::from_u32(pid)).map(|p| p.kill()).unwrap_or(false)
}

/// The session of process `pid` (`Process::session_id`), if known: none when the table
/// has no such process; otherwise the operating system is asked, so nothing more is
/// stated.
#[verifier::external_body]
fn process_session(system: &sysinfo::System, pid: u32) -> (r: Option<u32>)
    ensures
        !process_pids(*system).contains(pid) ==> r is None,
{
    system.process(sysinfo::Pid::from_u32(pid)).and_then(|p| p.session_id()).map(|s| s.as_u32())
}

/// What must hold before a kill: the pid must still be in the table under the expected
/// name.
pub open spec fn precheck_spec(pid: u32, expected: Seq<char>, actual: Option<Seq<char>>) -> Result<(), Seq<char>> {
    match actual {
        None => Err("Process "@ + decimal(pid as nat) + " not found"@),
        Some(a) => if a != expected {
            Err("PID "@ + decimal(pid as nat) + " has changed: expected '"@ + expected + "', actual '"@ + a + "'"@)
        } else {
            Ok(())
        },
    }
}

/// The outcome of the kill signal.
pub open spec fn kill_result_spec(pid: u32, expected: Seq<char>, killed: bool) -> Result<(), Seq<char>> {
    if killed {
        Ok(())
    } else {
        Err("Failed to kill process "@ + decimal(pid as nat) + " ("@ + expected + ")"@)
    }
}

/// A result's view.
pub open spec fn result_view(r: Result<(), String>) -> Result<(), Seq<char>> {
    match r {
        Ok(()) => Ok(()),
        Err(e) => Err(e@),
    }
}

fn decimal_string_push(v: &mut Vec<char>, n: u32)
    ensures
        final(v)@ == old(v)@ + decimal(n as nat),
{
    let d = decimal_exec(n as u64);
    push_all(v, &d);
}

/// Tests, before killing process `pid`, the name the table has for it.
pub fn kill_precheck(pid: u32, expected: &str, actual: Option<&str>) -> (r: Result<(), String>)
    ensures
        result_view(r) == precheck_spec(pid, expected@, match actual {
            Some(a) => Some(a@),
            None => None,
        }),
{
    match actual {
        None => {
            let mut v = chars_of("Process ");
            decimal_string_push(&mut v, pid);
            push_str(&mut v, " not found");
            Err(string_of(&v))
        },
        Some(a) => {
            if !same(&chars_of(a), &chars_of(expected)) {
                let mut v = chars_of("PID ");
                decimal_string_push(&mut v, pid);
                push_str(&mut v, " has changed: expected '");
                push_str(&mut v, expected);
                push_str(&mut v, "', actual '");
                push_str(&mut v, a);
                push_str(&mut v, "'");
                Err(string_of(&v))
            } else {
                Ok(())
            }
        },
    }
}

/// The outcome of a kill of process `pid`, given whether the signal was sent.
pub fn kill_result(pid: u32, expected: &str, killed: bool) -> (r: Result<(), String>)
    ensures
        result_view(r) == kill_result_spec(pid, expected@, killed),
{
    if killed {
        Ok(())
    } else {
        let mut v = chars_of("Failed to kill process ");
        decimal_string_push(&mut v, pid);
        push_str(&mut v, " (");
        push_str(&mut v, expected);
        push_str(&mut v, ")");
        Err(string_of(&v))
    }
}

/// The name the table holds for `pid`, if it holds the pid.
pub open spec fn table_name(system: sysinfo::System, pid: u32) -> Option<Seq<char>> {
    if process_pids(system).contains(pid) {
        Some(process_names(system)[pid])
    } else {
        None
    }
}

/// Kills process `pid` after checking that the table still names it `expected_name`
/// (a pid may have been reused). When the test fails, its error is returned; when it
/// passes, the kill is sent and its outcome (which the machine decides) is reported.
pub fn kill_process(system: &sysinfo::System, pid: u32, expected_name: &str) -> (r: Result<(), String>)
    ensures
        precheck_spec(pid, expected_name@, table_name(*system, pid)) is Err ==> result_view(r)
            == precheck_spec(pid, expected_name@, table_name(*system, pid)),
        precheck_spec(pid, expected_name@, table_name(*system, pid)) is Ok ==> exists|killed: bool|
            result_view(r) == #[trigger] kill_result_spec(pid, expected_name@, killed),
{
    let actual = process_name(system, pid);
    let check = match &actual {
        Some(a) => kill_precheck(pid, expected_name, Some(a.as_str())),
        None => kill_precheck(pid, expected_name, None),
    };
    let ghost av = crate::cleaner::opt_string_view(actual);
    assert(av == table_name(*system, pid));
    match check {
        Err(e) => {
            assert(precheck_spec(pid, expected_name@, av) is Err);
            Err(e)
        },
        Ok(()) => {
            let killed = kill_pid(system, pid);
            let r = kill_result(pid, expected_name, killed);
            assert(result_view(r) == kill_result_spec(pid, expected_name@, killed));
            r
        },
    }
}

/// System-critical processes (System Idle 0, System 4, Registry 8 and the like).
pub fn is_critical_pid(pid: u32) -> (b: bool)
    ensures
        b == (pid <= 8),
{
    pid <= 8
}

/// A memory trim skips critical processes, the calling process itself, and processes
/// of session 0 (system services).
pub open spec fn skip_spec(pid: u32, self_pid: u32, session: Option<u32>) -> bool {
    pid <= 8 || pid == self_pid || session == Some(0u32)
}

/// Whether a memory trim skips process `pid`, given its session.
pub fn should_skip_given(pid: u32, self_pid: u32, session: Option<u32>) -> (b: bool)
    ensures
        b == skip_spec(pid, self_pid, session),
{
    is_critical_pid(pid) || pid == self_pid || match session {
        Some(s) => s == 0,
        None => false,
    }
}

/// Whether a memory trim skips process `pid`; its session is read from the table. A
/// critical process or this one is always skipped; a pid the table does not hold has no
/// session and is skipped only if critical or this one. For a pid the table holds, the
/// session the operating system reports decides, and it is not stated.
pub fn should_skip(system: &sysinfo::System, pid: u32, self_pid: u32) -> (b: bool)
    ensures
        pid <= 8 || pid == self_pid ==> b,
        !process_pids(*system).contains(pid) ==> b == skip_spec(pid, self_pid, None),
{
    if is_critical_pid(pid) || pid == self_pid {
        return true;
    }
    let session = process_session(system, pid);
    should_skip_given(pid, self_pid, session)
}

/// The counts of a memory trim.
pub struct TrimCounts {
    pub attempted: usize,
    pub success: usize,
    pub failed: usize,
    pub skipped: usize,
}

impl TrimCounts {
    pub fn new() -> (c: Self)
        ensures
            c.attempted == 0 && c.success == 0 && c.failed == 0 && c.skipped == 0,
    {
        TrimCounts { attempted: 0, success: 0, failed: 0, skipped: 0 }
    }

    /// Counts one process: skipped, or attempted and then trimmed or not. Every process
    /// is counted once: `attempted + skipped` grows by one, and every attempt ends as a
    /// success or a failure.
    pub fn record(&mut self, skipped: bool, trimmed: bool)
        requires
            old(self).attempted + old(self).skipped < usize::MAX,
            old(self).success + old(self).failed == old(self).attempted,
        ensures
            final(self).attempted + final(self).skipped == old(self).attempted + old(self).skipped
                + 1,
            final(self).success + final(self).failed == final(self).attempted,
            skipped ==> final(self).skipped == old(self).skipped + 1 && final(self).attempted
                == old(self).attempted && final(self).success == old(self).success,
            !skipped && trimmed ==> final(self).success == old(self).success + 1
                && final(self).failed == old(self).failed && final(self).skipped == old(self).skipped,
            !skipped && !trimmed ==> final(self).failed == old(self).failed + 1
                && final(self).success == old(self).success && final(self).skipped == old(self).skipped,
    {
        if skipped {
            self.skipped = self.skipped + 1;
        } else {
            self.attempted = self.attempted + 1;
            if trimmed {
                self.success = self.success + 1;
            } else {
                self.failed = self.failed + 1;
            }
        }
    }
}

} // verus!
