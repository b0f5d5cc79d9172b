//! Graceful shutdown: what is refused while the server drains, and what the
//! embedding host is told about how serving and settlement ended.
use vstd::prelude::*;
use vstd::string::*;
use crate::error;
use crate::error::ApiHttpError;
use crate::text;

verus! {

/// How long a resident task may take to stop, in seconds, before it is aborted.
pub const TASK_GRACE_SECS: u64 = 5;

/// A method that changes something.
pub open spec fn is_mutating(method: Seq<char>) -> bool {
    method == "POST"@ || method == "PUT"@ || method == "PATCH"@ || method == "DELETE"@
}

/// A request that is refused because the server drains.
pub open spec fn refused_by_drain(shutting_down: bool, method: Seq<char>) -> bool {
    shutting_down && is_mutating(method)
}

/// Refuses new mutating work once shutdown has started; reads stay open.
pub fn reject_mutating_requests_during_shutdown(shutting_down: bool, method: &str) -> (r: Result<
    (),
    ApiHttpError,
>)
    ensures
        r is Err == refused_by_drain(shutting_down, method@),
        r matches Err(refusal) ==> refusal@ == error::unavailable_problem(
            "server is shutting down"@,
        ),
{
    if shutting_down && (text::same_text(method, "POST") || text::same_text(method, "PUT")
        || text::same_text(method, "PATCH") || text::same_text(method, "DELETE")) {
        return Err(ApiHttpError::service_unavailable("server is shutting down".to_owned()));
    }
    Ok(())
}

/// How a resident task ended after the shutdown signal.
#[derive(Debug)]
pub enum TaskEnd {
    /// It stopped by itself.
    Stopped,
    /// It was still running after its grace period and was aborted.
    GraceExceeded,
    /// It panicked or was cancelled.
    JoinFailed(String),
    /// It returned an error.
    TaskFailed(String),
    /// Whoever waited for it failed.
    WaiterFailed(String),
}

/// What is said of a task that did not end well.
pub open spec fn task_failure(end: TaskEnd) -> Option<Seq<char>> {
    match end {
        TaskEnd::Stopped => None,
        TaskEnd::GraceExceeded => Some("resident task exceeded the shutdown grace period"@),
        TaskEnd::JoinFailed(detail) => Some(
            "resident task failed during shutdown: "@ + detail@,
        ),
        TaskEnd::TaskFailed(detail) => Some("resident task ended with an error: "@ + detail@),
        TaskEnd::WaiterFailed(detail) => Some(
            "resident task waiter failed during shutdown: "@ + detail@,
        ),
    }
}

/// What is said of the tasks that did not end well, in the order of their ends.
pub open spec fn task_failures(ends: Seq<TaskEnd>) -> Seq<Seq<char>>
    decreases ends.len(),
{
    if ends.len() == 0 {
        Seq::empty()
    } else {
        match task_failure(ends.last()) {
            None => task_failures(ends.drop_last()),
            Some(failure) => task_failures(ends.drop_last()).push(failure),
        }
    }
}

/// The parts with a separator between each two.
pub open spec fn joined(parts: Seq<Seq<char>>, separator: Seq<char>) -> Seq<char>
    decreases parts.len(),
{
    if parts.len() == 0 {
        Seq::empty()
    } else if parts.len() == 1 {
        parts[0]
    } else {
        joined(parts.drop_last(), separator) + separator + parts.last()
    }
}

/// The report on the resident tasks: no failure is left out.
pub open spec fn tasks_report(failures: Seq<Seq<char>>) -> Option<Seq<char>> {
    if failures.len() == 0 {
        None
    } else if failures.len() == 1 {
        Some(failures[0])
    } else {
        Some(
            text::decimal(failures.len()) + " resident tasks failed during shutdown: "@ + joined(
                failures,
                "; "@,
            ),
        )
    }
}

fn failure_of(end: &TaskEnd) -> (r: Option<String>)
    ensures
        r.deep_view() == task_failure(*end),
{
    match end {
        TaskEnd::Stopped => None,
        TaskEnd::GraceExceeded => Some(
            "resident task exceeded the shutdown grace period".to_owned(),
        ),
        TaskEnd::JoinFailed(detail) => {
            let mut s = "resident task failed during shutdown: ".to_owned();
            s.append(detail.as_str());
            Some(s)
        },
        TaskEnd::TaskFailed(detail) => {
            let mut s = "resident task ended with an error: ".to_owned();
            s.append(detail.as_str());
            Some(s)
        },
        TaskEnd::WaiterFailed(detail) => {
            let mut s = "resident task waiter failed during shutdown: ".to_owned();
            s.append(detail.as_str());
            Some(s)
        },
    }
}

fn join(parts: &Vec<String>, separator: &str) -> (r: String)
    ensures
        r@ == joined(parts.deep_view(), separator@),
{
    let mut s = String::new();
    let mut i: usize = 0;
    let ghost all = parts.deep_view();
    assert(all.take(0) == Seq::<Seq<char>>::empty());
    while i < parts.len()
        invariant
            i <= parts@.len(),
            all == parts.deep_view(),
            s@ == joined(all.take(i as int), separator@),
        decreases parts.len() - i,
    {
        assert(all.take(i + 1).drop_last() == all.take(i as int));
        assert(all.take(i + 1).last() == parts@[i as int]@);
        if i > 0 {
            s.append(separator);
        }
        s.append(parts[i].as_str());
        assert(i == 0 ==> s@ == parts@[0]@);
        i += 1;
    }
    assert(all.take(all.len() as int) == all);
    s
}

/// What the host is told of the resident tasks, once all of them have ended.
pub fn settle_resident_tasks(ends: &Vec<TaskEnd>) -> (r: Result<(), String>)
    ensures
        match r {
            Ok(()) => tasks_report(task_failures(ends@)) is None,
            Err(report) => tasks_report(task_failures(ends@)) == Some(report@),
        },
{
    let mut failures: Vec<String> = Vec::new();
    let mut i: usize = 0;
    assert(ends@.take(0) == Seq::<TaskEnd>::empty());
    while i < ends.len()
        invariant
            i <= ends@.len(),
            failures.deep_view() == task_failures(ends@.take(i as int)),
        decreases ends.len() - i,
    {
        assert(ends@.take(i + 1).drop_last() == ends@.take(i as int));
        if let Some(failure) = failure_of(&ends[i]) {
            let ghost before = failures.deep_view();
            let ghost said = failure@;
            failures.push(failure);
            assert(failures.deep_view() == before.push(said));
        }
        i += 1;
    }
    assert(ends@.take(ends@.len() as int) == ends@);
    if failures.len() == 0 {
        return Ok(());
    }
    if failures.len() == 1 {
        let only = failures[0].clone();
        assert(failures.deep_view()[0] == only@);
        return Err(only);
    }
    let mut report = text::decimal_text(failures.len() as u64);
    report.append(" resident tasks failed during shutdown: ");
    let list = join(&failures, "; ");
    report.append(list.as_str());
    Err(report)
}

/// How serving over a bounded drain ended: the error, if there is one. A drain
/// that was cut off is none.
pub fn after_drain(served: Option<Result<(), String>>) -> (r: Option<String>)
    ensures
        r == match served {
            Some(Err(detail)) => Some(detail),
            _ => None,
        },
{
    match served {
        Some(Err(detail)) => Some(detail),
        _ => None,
    }
}

/// How settlement ended.
#[derive(Debug)]
pub enum Settlement {
    Settled,
    Failed(String),
    DeadlinePassed,
}

/// Settlement from its two halves: the resident tasks' failure comes first.
pub open spec fn settled(tasks: Result<(), String>, runs: Result<(), String>) -> Settlement {
    match (tasks, runs) {
        (Err(detail), _) => Settlement::Failed(detail),
        (Ok(()), Err(detail)) => Settlement::Failed(detail),
        (Ok(()), Ok(())) => Settlement::Settled,
    }
}

/// Settlement from its two halves, which run side by side: the resident tasks'
/// failure is reported first.
pub fn settlement(tasks: Result<(), String>, runs: Result<(), String>) -> (r: Settlement)
    ensures
        r == settled(tasks, runs),
{
    match tasks {
        Err(detail) => Settlement::Failed(detail),
        Ok(()) => match runs {
            Err(detail) => Settlement::Failed(detail),
            Ok(()) => Settlement::Settled,
        },
    }
}

/// The failure of settlement, if it failed.
pub open spec fn settlement_failure(settlement: Settlement, deadline_secs: u64) -> Option<
    Seq<char>,
> {
    match settlement {
        Settlement::Settled => None,
        Settlement::Failed(detail) => Some(detail@),
        Settlement::DeadlinePassed => Some(
            "graceful shutdown exceeded its "@ + text::decimal(deadline_secs as nat)
                + "s deadline"@,
        ),
    }
}

/// What the host is told at the end: where serving and settlement both failed,
/// both failures.
pub open spec fn serve_report(
    serve_error: Option<Seq<char>>,
    settlement: Settlement,
    deadline_secs: u64,
) -> Option<Seq<char>> {
    match (serve_error, settlement_failure(settlement, deadline_secs)) {
        (None, failure) => failure,
        (Some(serving), None) => Some(serving),
        (Some(serving), Some(failure)) => Some(
            "server failed: "@ + serving + (if settlement is Failed {
                "; shutdown also failed: "@
            } else {
                "; "@
            }) + failure,
        ),
    }
}

fn failure_text(settlement: &Settlement, deadline_secs: u64) -> (r: Option<String>)
    ensures
        r.deep_view() == settlement_failure(*settlement, deadline_secs),
{
    match settlement {
        Settlement::Settled => None,
        Settlement::Failed(detail) => Some(detail.clone()),
        Settlement::DeadlinePassed => {
            let mut s = "graceful shutdown exceeded its ".to_owned();
            text::push_decimal(&mut s, deadline_secs);
            s.append("s deadline");
            Some(s)
        },
    }
}

/// What serving with a resolved policy comes to.
pub fn serve_outcome(
    serve_error: Option<String>,
    settlement: Settlement,
    deadline_secs: u64,
) -> (r: Result<(), String>)
    ensures
        match r {
            Ok(()) => serve_report(serve_error.deep_view(), settlement, deadline_secs) is None,
            Err(report) => serve_report(serve_error.deep_view(), settlement, deadline_secs) == Some(
                report@,
            ),
        },
{
    match failure_text(&settlement, deadline_secs) {
        None => match serve_error {
            None => Ok(()),
            Some(serving) => Err(serving),
        },
        Some(failure) => match serve_error {
            None => Err(failure),
            Some(serving) => {
                let mut report = "server failed: ".to_owned();
                report.append(serving.as_str());
                match settlement {
                    Settlement::Failed(_) => report.append("; shutdown also failed: "),
                    _ => report.append("; "),
                }
                report.append(failure.as_str());
                Err(report)
            },
        },
    }
}

/// The generator roots that a service searches, in order.
pub fn generator_roots(generators_dir: &String, extra: &Vec<String>) -> (r: Vec<String>)
    ensures
        r.deep_view() == seq![generators_dir@] + extra.deep_view(),
{
    let mut roots: Vec<String> = Vec::new();
    roots.push(generators_dir.clone());
    let mut i: usize = 0;
    while i < extra.len()
        invariant
            i <= extra@.len(),
            roots@.len() == i + 1,
            roots@[0]@ == generators_dir@,
            forall|j: int| 0 <= j < i ==> (#[trigger] roots@[j + 1])@ == extra@[j]@,
        decreases extra.len() - i,
    {
        roots.push(extra[i].clone());
        i += 1;
    }
    assert(roots.deep_view() =~= seq![generators_dir@] + extra.deep_view()) by {
        assert forall|k: int| 0 <= k < roots@.len() implies roots.deep_view()[k] == (
        seq![generators_dir@] + extra.deep_view())[k] by {
            if k > 0 {
                assert(roots@[(k - 1) + 1]@ == extra@[k - 1]@);
            }
        }
    }
    roots
}

/// Success is claimed only where serving ended well, every resident task
/// stopped by itself and every run settled in time.
pub proof fn success_hides_no_failure(
    serve_error: Option<Seq<char>>,
    ends: Seq<TaskEnd>,
    settlement: Settlement,
    deadline_secs: u64,
)
    requires
        settlement is Settled ==> tasks_report(task_failures(ends)) is None,
        serve_report(serve_error, settlement, deadline_secs) is None,
    ensures
        serve_error is None,
        settlement is Settled,
        forall|i: int| 0 <= i < ends.len() ==> (#[trigger] ends[i]) is Stopped,
{
    no_failure_means_all_stopped(ends);
}

proof fn no_failure_means_all_stopped(ends: Seq<TaskEnd>)
    requires
        task_failures(ends).len() == 0,
    ensures
        forall|i: int| 0 <= i < ends.len() ==> (#[trigger] ends[i]) is Stopped,
    decreases ends.len(),
{
    if ends.len() > 0 {
        no_failure_means_all_stopped(ends.drop_last());
        assert forall|i: int| 0 <= i < ends.len() implies (#[trigger] ends[i]) is Stopped by {
            if i < ends.len() - 1 {
                assert(ends.drop_last()[i] == ends[i]);
            }
        }
    }
}

} // verus!
