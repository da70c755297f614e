//! Deleting scanned files safely. The file system work (resolving a path, removing a
//! file, stopping and starting services) is done by the caller; a `DeleteSession` makes
//! every decision: which services to stop, whether a path may be deleted, what is
//! counted and reported.

use vstd::prelude::*;
use crate::cleaner::{DeleteProgress, DeleteResult, ScanTarget};
use crate::paths::{
    allowed_spec, expand_env_chars, expand_env_spec, is_path_allowed, is_protected_by_text,
    lowercase_of, path_has_no_parent, protected_by_text, surely_has_parent, to_lowercase, EnvVars,
    EnvView,
};
use crate::text::{chars_of, has_prefix, push_str, starts_with, string_of};

verus! {

/// `a`, `b` and `c` joined.
fn join3(a: &str, b: &str, c: &str) -> (r: String)
    ensures
        r@ == a@ + b@ + c@,
{
    let mut v = chars_of(a);
    push_str(&mut v, b);
    push_str(&mut v, c);
    string_of(&v)
}

/// `a`, `b`, `c` and `d` joined.
fn join4(a: &str, b: &str, c: &str, d: &str) -> (r: String)
    ensures
        r@ == a@ + b@ + c@ + d@,
{
    let mut v = chars_of(a);
    push_str(&mut v, b);
    push_str(&mut v, c);
    push_str(&mut v, d);
    string_of(&v)
}

/// The `(service, target path)` pairs of the targets that need a service stopped, in
/// target order.
pub open spec fn service_targets(ts: Seq<ScanTarget>) -> Seq<(Seq<char>, Seq<char>)>
    decreases ts.len(),
{
    if ts.len() == 0 {
        Seq::empty()
    } else {
        let rest = service_targets(ts.drop_last());
        match ts.last().requires_service_stop {
            Some(s) => rest.push((s@, ts.last().path@)),
            None => rest,
        }
    }
}

/// The elements of `s` in order of first occurrence, each once.
pub open spec fn distinct_in_order(s: Seq<Seq<char>>) -> Seq<Seq<char>>
    decreases s.len(),
{
    if s.len() == 0 {
        Seq::empty()
    } else {
        let r = distinct_in_order(s.drop_last());
        if r.contains(s.last()) {
            r
        } else {
            r.push(s.last())
        }
    }
}

/// The state of a deletion run.
pub struct SessionView {
    pub success: u64,
    pub failed: u64,
    pub errors: Seq<Seq<char>>,
    pub total: u64,
    pub done: u64,
    pub services: Seq<(Seq<char>, Seq<char>)>,
    pub stopped: Seq<Seq<char>>,
    pub stop_failed: Seq<Seq<char>>,
}

/// Every path handled so far was counted once, as deleted or as failed.
pub open spec fn counts_agree(v: SessionView) -> bool {
    v.success + v.failed == v.done && v.done <= v.total
}

/// A path is blocked when it lies under the target of a service that could not be
/// stopped (lowercase prefix comparison, as in the scan).
pub open spec fn service_blocks(v: SessionView, safe: Seq<char>, env: EnvView) -> bool {
    exists|i: int|
        0 <= i < v.services.len() && v.stop_failed.contains(v.services[i].0) && starts_with(
            lowercase_of(safe),
            #[trigger] lowercase_of(expand_env_spec(v.services[i].1, env)),
        )
}

/// Law of service blocking: only a service that failed to stop blocks a path. A path is
/// blocked exactly when some service target whose service is in `stop_failed` covers it
/// (lowercase prefix of its expanded path); so when no service failed to stop (for
/// instance after every stop succeeded), no path is blocked, and a resolved path that has
/// a parent, is not protected by its text and lies inside a target is handed out.
pub proof fn law_only_failed_stops_block(
    v: SessionView,
    targets: Seq<ScanTarget>,
    env: EnvView,
    path: Seq<char>,
    safe: Seq<char>,
)
    ensures
        service_blocks(v, safe, env) <==> exists|i: int|
            0 <= i < v.services.len() && v.stop_failed.contains(#[trigger] v.services[i].0)
                && starts_with(lowercase_of(safe), lowercase_of(expand_env_spec(v.services[i].1, env))),
        (forall|k: int| 0 <= k < v.stop_failed.len() ==> !v.services.map_values(
            |p: (Seq<char>, Seq<char>)| p.0,
        ).contains(#[trigger] v.stop_failed[k])) ==> !service_blocks(v, safe, env),
        v.stop_failed.len() == 0 && !protected_by_text(safe, env) && allowed_spec(safe, targets, env)
            ==> rejection(v, targets, env, path, Ok(safe), false) is None,
{
    if service_blocks(v, safe, env) {
        let i = choose|i: int|
            0 <= i < v.services.len() && v.stop_failed.contains(v.services[i].0) && starts_with(
                lowercase_of(safe),
                #[trigger] lowercase_of(expand_env_spec(v.services[i].1, env)),
            );
        let k = choose|k: int| 0 <= k < v.stop_failed.len() && v.stop_failed[k] == v.services[i].0;
        assert(v.services.map_values(|p: (Seq<char>, Seq<char>)| p.0)[i] == v.stop_failed[k]);
    }
}

/// The view of a path resolution: the resolved path or the error text.
pub open spec fn resolved_view(r: Result<String, String>) -> Result<Seq<char>, Seq<char>> {
    match r {
        Ok(p) => Ok(p@),
        Err(e) => Err(e@),
    }
}

/// Why a path is rejected, if it is: it could not be resolved, it is protected (by its
/// text, or because it has no parent), it lies outside every target, or its service
/// could not be stopped.
pub open spec fn rejection(
    v: SessionView,
    targets: Seq<ScanTarget>,
    env: EnvView,
    path: Seq<char>,
    resolved: Result<Seq<char>, Seq<char>>,
    no_parent: bool,
) -> Option<Seq<char>> {
    match resolved {
        Err(e) => Some("Cannot resolve path "@ + path + ": "@ + e),
        Ok(safe) => if protected_by_text(safe, env) || no_parent {
            Some("Protected path: "@ + safe)
        } else if !allowed_spec(safe, targets, env) {
            Some("Path not in scan scope: "@ + safe)
        } else if service_blocks(v, safe, env) {
            Some("服务无法停止，跳过删除: "@ + safe)
        } else {
            None
        },
    }
}

/// The session after a rejected path: one more failure, handled, with its message.
pub open spec fn after_rejection(v: SessionView, msg: Seq<char>) -> SessionView {
    SessionView {
        failed: (v.failed + 1) as u64,
        done: (v.done + 1) as u64,
        errors: v.errors.push(msg),
        ..v
    }
}

/// What to do with a path.
pub enum Verdict {
    /// Delete the resolved path.
    Delete(String),
    /// The path was rejected and counted; send this progress event.
    Rejected(DeleteProgress),
}

/// The outcome of one path check, for a given answer to "has the resolved path no
/// parent".
pub open spec fn check_outcome(
    before: SessionView,
    after: SessionView,
    r: Verdict,
    targets: Seq<ScanTarget>,
    env: EnvView,
    path: Seq<char>,
    resolved: Result<Seq<char>, Seq<char>>,
    no_parent: bool,
) -> bool {
    match rejection(before, targets, env, path, resolved, no_parent) {
        Some(msg) => after == after_rejection(before, msg) && (r matches Verdict::Rejected(p)
            && p.done == after.done && p.total == after.total && p.current@ == path),
        None => after == before && (r matches Verdict::Delete(p) && resolved == Ok::<
            Seq<char>,
            Seq<char>,
        >(p@)),
    }
}

/// How the removal of an accepted path went (after the delayed-delete fallback).
pub enum DeleteOutcome {
    Deleted,
    /// Removal failed; `busy` tells that another process held the file open.
    Failed { message: String, busy: bool },
}

/// The session after the removal of an accepted path.
pub open spec fn after_delete(v: SessionView, outcome: DeleteOutcome) -> SessionView {
    match outcome {
        DeleteOutcome::Deleted => SessionView {
            success: (v.success + 1) as u64,
            done: (v.done + 1) as u64,
            ..v
        },
        DeleteOutcome::Failed { message, busy } => SessionView {
            failed: (v.failed + 1) as u64,
            done: (v.done + 1) as u64,
            errors: v.errors.push(
                if busy {
                    "文件被进程占用，延迟删除失败: "@ + message@
                } else {
                    message@
                },
            ),
            ..v
        },
    }
}

/// Progress is reported after every tenth path and after the last one.
pub open spec fn reports_progress(done: u64, total: u64) -> bool {
    done % 10 == 0 || done == total
}

/// A deletion run over `total` paths.
pub struct DeleteSession {
    success: u64,
    failed: u64,
    errors: Vec<String>,
    total: u64,
    done: u64,
    services: Vec<(String, String)>,
    stopped: Vec<String>,
    stop_failed: Vec<String>,
}

impl View for DeleteSession {
    type V = SessionView;

    closed spec fn view(&self) -> SessionView {
        SessionView {
            success: self.success,
            failed: self.failed,
            errors: self.errors.deep_view(),
            total: self.total,
            done: self.done,
            services: self.services@.map_values(|p: (String, String)| (p.0@, p.1@)),
            stopped: self.stopped.deep_view(),
            stop_failed: self.stop_failed.deep_view(),
        }
    }
}

fn contains_name(names: &Vec<String>, name: &str) -> (b: bool)
    ensures
        b == names.deep_view().contains(name@),
{
    crate::cleaner::contains_string(names, name)
}

impl DeleteSession {
    /// A run over `total` paths, checked against `targets`.
    pub fn new(targets: &[ScanTarget], total: u64) -> (s: Self)
        ensures
            s@.success == 0,
            s@.failed == 0,
            s@.errors.len() == 0,
            s@.total == total,
            s@.done == 0,
            s@.services == service_targets(targets@),
            s@.stopped.len() == 0,
            s@.stop_failed.len() == 0,
            counts_agree(s@),
    {
        let mut services: Vec<(String, String)> = Vec::new();
        let mut i: usize = 0;
        while i < targets.len()
            invariant
                i <= targets@.len(),
                services@.map_values(|p: (String, String)| (p.0@, p.1@)) == service_targets(
                    targets@.subrange(0, i as int),
                ),
            decreases targets@.len() - i,
        {
            let ghost before = services@;
            assert(targets@.subrange(0, i + 1).drop_last() =~= targets@.subrange(0, i as int));
            match &targets[i].requires_service_stop {
                Some(s) => {
                    services.push((s.clone(), targets[i].path.clone()));
                    assert(services@.map_values(|p: (String, String)| (p.0@, p.1@))
                        =~= before.map_values(|p: (String, String)| (p.0@, p.1@)).push(
                        (s@, targets@[i as int].path@),
                    ));
                },
                None => {},
            }
            i = i + 1;
        }
        assert(targets@.subrange(0, targets@.len() as int) =~= targets@);
        let s = DeleteSession {
            success: 0,
            failed: 0,
            errors: Vec::new(),
            total,
            done: 0,
            services,
            stopped: Vec::new(),
            stop_failed: Vec::new(),
        };
        assert(s@.errors =~= Seq::<Seq<char>>::empty());
        assert(s@.stopped =~= Seq::<Seq<char>>::empty());
        assert(s@.stop_failed =~= Seq::<Seq<char>>::empty());
        s
    }

    /// The services to stop before deleting, each once, in target order.
    pub fn services_to_stop(&self) -> (r: Vec<String>)
        ensures
            r.deep_view() == distinct_in_order(self@.services.map_values(|p: (Seq<char>, Seq<char>)| p.0)),
    {
        let ghost names = self@.services.map_values(|p: (Seq<char>, Seq<char>)| p.0);
        let mut r: Vec<String> = Vec::new();
        let mut i: usize = 0;
        while i < self.services.len()
            invariant
                i <= self.services@.len(),
                names.len() == self.services@.len(),
                forall|j: int| 0 <= j < names.len() ==> names[j] == #[trigger] self.services@[j].0@,
                r.deep_view() == distinct_in_order(names.subrange(0, i as int)),
            decreases self.services@.len() - i,
        {
            assert(names.subrange(0, i + 1).drop_last() =~= names.subrange(0, i as int));
            assert(names.subrange(0, i + 1).last() == self.services@[i as int].0@);
            let name = &self.services[i].0;
            if !contains_name(&r, name.as_str()) {
                let ghost before = r.deep_view();
                r.push(name.clone());
                assert(r.deep_view() =~= before.push(name@));
            }
            i = i + 1;
        }
        assert(names.subrange(0, names.len() as int) =~= names);
        r
    }

    /// Records the outcome of stopping `service`.
    pub fn record_stop(&mut self, service: String, outcome: Result<(), String>)
        ensures
            final(self)@ == (match outcome {
                Ok(()) => SessionView { stopped: old(self)@.stopped.push(service@), ..old(self)@ },
                Err(e) => SessionView {
                    stop_failed: old(self)@.stop_failed.push(service@),
                    errors: old(self)@.errors.push("无法停止服务 "@ + service@ + ": "@ + e@),
                    ..old(self)@
                },
            }),
    {
        match outcome {
            Ok(()) => {
                let ghost before = self.stopped.deep_view();
                self.stopped.push(service);
                assert(self.stopped.deep_view() =~= before.push(service@));
            },
            Err(e) => {
                let msg = join4("无法停止服务 ", service.as_str(), ": ", e.as_str());
                let ghost before = self.stop_failed.deep_view();
                let ghost before_errors = self.errors.deep_view();
                self.stop_failed.push(service);
                self.errors.push(msg);
                assert(self.stop_failed.deep_view() =~= before.push(service@));
                assert(self.errors.deep_view() =~= before_errors.push(msg@));
            },
        }
    }

    fn blocked(&self, safe: &str, env: &EnvVars) -> (b: bool)
        ensures
            b == service_blocks(self@, safe@, env@),
    {
        let lower = to_lowercase(&chars_of(safe));
        let mut i: usize = 0;
        while i < self.services.len()
            invariant
                i <= self.services@.len(),
                self@.services.len() == self.services@.len(),
                lower@ == lowercase_of(safe@),
                forall|j: int|
                    0 <= j < i ==> !(self@.stop_failed.contains(self@.services[j].0) && starts_with(
                        lowercase_of(safe@),
                        #[trigger] lowercase_of(expand_env_spec(self@.services[j].1, env@)),
                    )),
            decreases self.services@.len() - i,
        {
            let (s, p) = (&self.services[i].0, &self.services[i].1);
            assert(self@.services[i as int] == (s@, p@));
            if contains_name(&self.stop_failed, s.as_str()) {
                let root = to_lowercase(&expand_env_chars(&chars_of(p.as_str()), env));
                if has_prefix(&lower, &root) {
                    assert(self@.stop_failed.contains(self@.services[i as int].0) && starts_with(
                        lowercase_of(safe@),
                        lowercase_of(expand_env_spec(self@.services[i as int].1, env@)),
                    ));
                    return true;
                }
            }
            i = i + 1;
        }
        false
    }

    fn reject(&mut self, path: &str, msg: String) -> (r: Verdict)
        requires
            old(self)@.done < old(self)@.total,
            counts_agree(old(self)@),
        ensures
            final(self)@ == after_rejection(old(self)@, msg@),
            r matches Verdict::Rejected(p) && p.done == final(self)@.done && p.total
                == final(self)@.total && p.current@ == path@,
            counts_agree(final(self)@),
    {
        let ghost before = self.errors.deep_view();
        self.failed = self.failed + 1;
        self.done = self.done + 1;
        self.errors.push(msg);
        assert(self.errors.deep_view() =~= before.push(msg@));
        Verdict::Rejected(DeleteProgress { done: self.done, total: self.total, current: path.to_owned() })
    }

    /// Checks a path before deletion, given how the path resolved (`Err` holds the error
    /// text) and whether the resolved path has no parent directory. A rejected path is
    /// counted as failed with its reason; an accepted one changes nothing.
    pub fn check_path_given(
        &mut self,
        targets: &[ScanTarget],
        env: &EnvVars,
        path: &str,
        resolved: Result<String, String>,
        no_parent: bool,
    ) -> (r: Verdict)
        requires
            old(self)@.done < old(self)@.total,
            counts_agree(old(self)@),
        ensures
            check_outcome(
                old(self)@,
                final(self)@,
                r,
                targets@,
                env@,
                path@,
                resolved_view(resolved),
                no_parent,
            ),
            counts_agree(final(self)@),
    {
        match resolved {
            Err(e) => {
                let msg = join4("Cannot resolve path ", path, ": ", e.as_str());
                self.reject(path, msg)
            },
            Ok(safe) => {
                if is_protected_by_text(safe.as_str(), env) || no_parent {
                    let msg = join3("Protected path: ", safe.as_str(), "");
                    assert(msg@ =~= "Protected path: "@ + safe@) by {
                        reveal_strlit("");
                    }
                    self.reject(path, msg)
                } else if !is_path_allowed(safe.as_str(), targets, env) {
                    let msg = join3("Path not in scan scope: ", safe.as_str(), "");
                    assert(msg@ =~= "Path not in scan scope: "@ + safe@) by {
                        reveal_strlit("");
                    }
                    self.reject(path, msg)
                } else if self.blocked(safe.as_str(), env) {
                    let msg = join3("服务无法停止，跳过删除: ", safe.as_str(), "");
                    assert(msg@ =~= "服务无法停止，跳过删除: "@ + safe@) by {
                        reveal_strlit("");
                    }
                    self.reject(path, msg)
                } else {
                    Verdict::Delete(safe)
                }
            },
        }
    }

    /// Checks a path before deletion (see `check_path_given`); whether the resolved path
    /// has a parent is asked of the platform's path rules. A path that is protected by
    /// its text, outside every target or under a service that could not be stopped is
    /// never handed out for deletion. A resolved path that has a parent under every
    /// platform's syntax is checked as one with a parent.
    pub fn check_path(
        &mut self,
        targets: &[ScanTarget],
        env: &EnvVars,
        path: &str,
        resolved: Result<String, String>,
    ) -> (r: Verdict)
        requires
            old(self)@.done < old(self)@.total,
            counts_agree(old(self)@),
        ensures
            check_outcome(
                old(self)@,
                final(self)@,
                r,
                targets@,
                env@,
                path@,
                resolved_view(resolved),
                true,
            ) || check_outcome(
                old(self)@,
                final(self)@,
                r,
                targets@,
                env@,
                path@,
                resolved_view(resolved),
                false,
            ),
            r matches Verdict::Delete(p) ==> !protected_by_text(p@, env@) && allowed_spec(
                p@,
                targets@,
                env@,
            ) && !service_blocks(old(self)@, p@, env@),
            resolved_view(resolved) matches Ok(safe) && surely_has_parent(safe) ==> check_outcome(
                old(self)@,
                final(self)@,
                r,
                targets@,
                env@,
                path@,
                resolved_view(resolved),
                false,
            ),
            counts_agree(final(self)@),
    {
        let no_parent = match &resolved {
            Ok(safe) => path_has_no_parent(safe.as_str()),
            Err(_) => false,
        };
        self.check_path_given(targets, env, path, resolved, no_parent)
    }

    /// Records how the removal of an accepted path went; returns the progress event to
    /// send, if any.
    pub fn record_delete(&mut self, path: &str, outcome: DeleteOutcome) -> (r: Option<DeleteProgress>)
        requires
            old(self)@.done < old(self)@.total,
            counts_agree(old(self)@),
        ensures
            final(self)@ == after_delete(old(self)@, outcome),
            counts_agree(final(self)@),
            r is Some <==> reports_progress(final(self)@.done, final(self)@.total),
            r matches Some(p) ==> p.done == final(self)@.done && p.total == final(self)@.total
                && p.current@ == path@,
    {
        match outcome {
            DeleteOutcome::Deleted => {
                self.success = self.success + 1;
            },
            DeleteOutcome::Failed { message, busy } => {
                let ghost before = self.errors.deep_view();
                self.failed = self.failed + 1;
                let msg = if busy {
                    join3("文件被进程占用，延迟删除失败: ", message.as_str(), "")
                } else {
                    message
                };
                proof {
                    reveal_strlit("");
                }
                self.errors.push(msg);
                assert(self.errors.deep_view() =~= before.push(msg@));
            },
        }
        self.done = self.done + 1;
        if self.done % 10 == 0 || self.done == self.total {
            Some(DeleteProgress { done: self.done, total: self.total, current: path.to_owned() })
        } else {
            None
        }
    }

    /// The services to start again after deleting: the stopped ones, last stopped first.
    pub fn services_to_restart(&self) -> (r: Vec<String>)
        ensures
            r.deep_view().len() == self@.stopped.len(),
            forall|i: int|
                0 <= i < self@.stopped.len() ==> r.deep_view()[i] == self@.stopped[self@.stopped.len()
                    - 1 - i],
    {
        let mut r: Vec<String> = Vec::new();
        let mut i: usize = self.stopped.len();
        while i > 0
            invariant
                i <= self.stopped@.len(),
                r.deep_view().len() == self.stopped@.len() - i,
                forall|j: int|
                    0 <= j < r.deep_view().len() ==> r.deep_view()[j] == self@.stopped[self@.stopped.len()
                        - 1 - j],
            decreases i,
        {
            i = i - 1;
            let ghost before = r.deep_view();
            r.push(self.stopped[i].clone());
            assert(r.deep_view() =~= before.push(self@.stopped[i as int]));
        }
        r
    }

    /// Records that `service` could not be started again.
    pub fn record_restart_failure(&mut self, service: &str, reason: &str)
        ensures
            final(self)@ == (SessionView {
                errors: old(self)@.errors.push("删除后无法恢复服务 "@ + service@ + ": "@ + reason@),
                ..old(self)@
            }),
    {
        let msg = join4("删除后无法恢复服务 ", service, ": ", reason);
        let ghost before = self.errors.deep_view();
        self.errors.push(msg);
        assert(self.errors.deep_view() =~= before.push(msg@));
    }

    /// The number of paths handled so far.
    pub fn done(&self) -> (r: u64)
        ensures
            r == self@.done,
    {
        self.done
    }

    /// The number of paths of the run.
    pub fn total(&self) -> (r: u64)
        ensures
            r == self@.total,
    {
        self.total
    }

    /// The outcome of the run.
    pub fn finish(self) -> (r: DeleteResult)
        ensures
            r.success == self@.success,
            r.failed == self@.failed,
            r.errors.deep_view() == self@.errors,
    {
        DeleteResult { success: self.success, failed: self.failed, errors: self.errors }
    }
}

} // verus!
