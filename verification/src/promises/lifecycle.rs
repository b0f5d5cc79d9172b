//! How the server starts and ends.
use vstd::prelude::*;
use crate::policy::ResolvedServerPolicy;
use crate::serve;
use crate::serve::{Order, Report, Stage, StageModel};
use crate::shutdown;
use crate::shutdown::{Settlement, TaskEnd};
use crate::text;

verus! {

/// A task that stopped by itself is no failure; any other end is one, and is
/// told with its own words.
pub proof fn a_task_is_reported_by_its_end(end: TaskEnd)
    ensures
        shutdown::task_failure(end) is None <==> end is Stopped,
        end is GraceExceeded ==> shutdown::task_failure(end) == Some(
            "resident task exceeded the shutdown grace period"@,
        ),
        end matches TaskEnd::JoinFailed(detail) ==> shutdown::task_failure(end) == Some(
            "resident task failed during shutdown: "@ + detail@,
        ),
        end matches TaskEnd::TaskFailed(detail) ==> shutdown::task_failure(end) == Some(
            "resident task ended with an error: "@ + detail@,
        ),
        end matches TaskEnd::WaiterFailed(detail) ==> shutdown::task_failure(end) == Some(
            "resident task waiter failed during shutdown: "@ + detail@,
        ),
{
}

/// Every task that failed is in the list of failures, in order, and none
/// besides.
pub proof fn every_failed_task_is_listed(ends: Seq<TaskEnd>, last: TaskEnd)
    ensures
        shutdown::task_failures(Seq::empty()).len() == 0,
        last is Stopped ==> shutdown::task_failures(ends.push(last)) == shutdown::task_failures(
            ends,
        ),
        last !is Stopped ==> shutdown::task_failures(ends.push(last)) == shutdown::task_failures(
            ends,
        ).push(shutdown::task_failure(last)->0),
{
    assert(ends.push(last).drop_last() =~= ends);
}

/// A report is given exactly where something failed. One failure is told as it
/// is; several are counted, and each is told.
pub proof fn every_failure_is_reported(failures: Seq<Seq<char>>, i: int)
    ensures
        shutdown::tasks_report(failures) is None <==> failures.len() == 0,
        failures.len() == 1 ==> shutdown::tasks_report(failures) == Some(failures[0]),
        failures.len() > 1 ==> (text::decimal(failures.len())
            + " resident tasks failed during shutdown: "@).is_prefix_of(
            shutdown::tasks_report(failures)->0,
        ),
        0 <= i < failures.len() ==> exists|x: Seq<char>, y: Seq<char>|
            shutdown::tasks_report(failures)->0 == #[trigger] (x + failures[i] + y),
{
    if failures.len() == 1 && i == 0 {
        assert(failures[0] =~= Seq::<char>::empty() + failures[0] + Seq::<char>::empty());
    }
    if failures.len() > 1 {
        let head = text::decimal(failures.len()) + " resident tasks failed during shutdown: "@;
        let told = shutdown::joined(failures, "; "@);
        let report = shutdown::tasks_report(failures)->0;
        assert(report == head + told);
        assert(report.subrange(0, head.len() as int) =~= head);
        if 0 <= i < failures.len() {
            a_joined_part_stands_in_the_whole(failures, "; "@, i);
            let (x, y) = choose|x: Seq<char>, y: Seq<char>| told == #[trigger] (x + failures[i]
                + y);
            assert(report =~= (head + x) + failures[i] + y);
        }
    }
}

proof fn a_joined_part_stands_in_the_whole(parts: Seq<Seq<char>>, separator: Seq<char>, i: int)
    requires
        0 <= i < parts.len(),
    ensures
        exists|x: Seq<char>, y: Seq<char>|
            shutdown::joined(parts, separator) == #[trigger] (x + parts[i] + y),
    decreases parts.len(),
{
    let whole = shutdown::joined(parts, separator);
    if parts.len() == 1 {
        assert(whole =~= Seq::<char>::empty() + parts[0] + Seq::<char>::empty());
    } else if i == parts.len() - 1 {
        let front = shutdown::joined(parts.drop_last(), separator) + separator;
        assert(whole =~= front + parts[i] + Seq::<char>::empty());
    } else {
        let front = parts.drop_last();
        a_joined_part_stands_in_the_whole(front, separator, i);
        let (x, y) = choose|x: Seq<char>, y: Seq<char>|
            shutdown::joined(front, separator) == #[trigger] (x + front[i] + y);
        assert(whole =~= x + parts[i] + (y + separator + parts.last()));
    }
}

/// The parts of a report are put together with their separator between them.
pub proof fn reports_are_put_together(parts: Seq<Seq<char>>, part: Seq<char>, separator: Seq<char>)
    ensures
        shutdown::joined(Seq::empty(), separator).len() == 0,
        shutdown::joined(seq![part], separator) == part,
        parts.len() > 0 ==> shutdown::joined(parts.push(part), separator) == shutdown::joined(
            parts,
            separator,
        ) + separator + part,
{
    assert(parts.push(part).drop_last() =~= parts);
}

/// The server ends well exactly where it served without an error and everything
/// settled in time; otherwise each of the two failures is told.
pub proof fn an_end_is_told_in_full(
    serve_error: Option<Seq<char>>,
    settlement: Settlement,
    deadline_secs: u64,
)
    ensures
        shutdown::serve_report(serve_error, settlement, deadline_secs) is None <==> serve_error
            is None && settlement is Settled,
        serve_error is Some && settlement is Settled ==> shutdown::serve_report(
            serve_error,
            settlement,
            deadline_secs,
        ) == serve_error,
        serve_error is None && settlement is DeadlinePassed ==> shutdown::serve_report(
            serve_error,
            settlement,
            deadline_secs,
        ) == Some(
            "graceful shutdown exceeded its "@ + text::decimal(deadline_secs as nat)
                + "s deadline"@,
        ),
        settlement matches Settlement::Failed(detail) ==> (serve_error is None
            ==> shutdown::serve_report(serve_error, settlement, deadline_secs) == Some(detail@))
            && (serve_error is Some ==> shutdown::serve_report(
            serve_error,
            settlement,
            deadline_secs,
        ) == Some(
            "server failed: "@ + serve_error->0 + "; shutdown also failed: "@ + detail@,
        )),
        serve_error is Some && settlement is DeadlinePassed ==> shutdown::serve_report(
            serve_error,
            settlement,
            deadline_secs,
        ) == Some(
            "server failed: "@ + serve_error->0 + "; "@ + ("graceful shutdown exceeded its "@
                + text::decimal(deadline_secs as nat) + "s deadline"@),
        ),
{
}

/// A boot that nothing refuses goes through its stages one by one: it
/// constructs, routes, installs its signals, resumes what was left, starts its
/// tasks, serves and settles.
pub proof fn a_boot_takes_its_stages_in_order(
    served: Option<Result<(), String>>,
    settlement: Settlement,
    deadline_secs: u64,
)
    ensures
        ({
            let s1 = serve::following(
                StageModel::Constructing,
                Report::Constructed(Ok(())),
                deadline_secs,
            );
            let s2 = serve::following(s1, Report::Routed(Ok(())), deadline_secs);
            let s3 = serve::following(s2, Report::SignalsInstalled(Ok(())), deadline_secs);
            let s4 = serve::following(s3, Report::Resumed, deadline_secs);
            let s5 = serve::following(s4, Report::Started, deadline_secs);
            let s6 = serve::following(s5, Report::Served(served), deadline_secs);
            let s7 = serve::following(s6, Report::Settled(settlement), deadline_secs);
            let failure = match served {
                Some(Err(detail)) => Some(detail@),
                _ => None,
            };
            &&& s1 is Routing
            &&& s2 is InstallingSignals
            &&& s3 is Resuming
            &&& s4 is Starting
            &&& s5 is Serving
            &&& s6 == StageModel::Settling(failure)
            &&& s7 == StageModel::Done(shutdown::serve_report(failure, settlement, deadline_secs))
        }),
        serve::course(Seq::empty(), deadline_secs) is Constructing,
{
}

/// A refusal on the way ends the boot at once, with its own words.
pub proof fn a_refusal_ends_the_boot(detail: String, deadline_secs: u64)
    ensures
        serve::following(
            StageModel::Constructing,
            Report::Constructed(Err(detail)),
            deadline_secs,
        ) == StageModel::Done(Some(detail@)),
        serve::following(StageModel::Routing, Report::Routed(Err(detail)), deadline_secs)
            == StageModel::Done(Some(detail@)),
        serve::following(
            StageModel::InstallingSignals,
            Report::SignalsInstalled(Err(detail)),
            deadline_secs,
        ) == StageModel::Done(Some("failed to install SIGTERM handler: "@ + detail@)),
{
    reveal_strlit("");
    assert(""@ + detail@ =~= detail@);
}

/// A report that the stage does not wait for changes nothing, and what is done
/// stays done.
pub proof fn a_stage_waits_for_its_own_report(outcome: Option<Seq<char>>, report: Report, deadline_secs:
    u64)
    ensures
        serve::following(StageModel::Done(outcome), report, deadline_secs) == StageModel::Done(
            outcome,
        ),
        report !is Constructed ==> serve::following(
            StageModel::Constructing,
            report,
            deadline_secs,
        ) is Constructing,
        report !is Routed ==> serve::following(StageModel::Routing, report, deadline_secs)
            is Routing,
        report !is SignalsInstalled ==> serve::following(
            StageModel::InstallingSignals,
            report,
            deadline_secs,
        ) is InstallingSignals,
        report !is Resumed ==> serve::following(StageModel::Resuming, report, deadline_secs)
            is Resuming,
        report !is Started ==> serve::following(StageModel::Starting, report, deadline_secs)
            is Starting,
        report !is Served ==> serve::following(StageModel::Serving, report, deadline_secs)
            is Serving,
        report !is Settled ==> serve::following(
            StageModel::Settling(outcome),
            report,
            deadline_secs,
        ) == StageModel::Settling(outcome),
{
}

/// Each stage asks for its own work, with the policy's own values.
pub proof fn each_stage_asks_for_its_work(
    policy: ResolvedServerPolicy,
    serve_error: Option<String>,
    outcome: Result<(), String>,
)
    ensures
        serve::ordered(Stage::Constructing, policy) is Construct,
        serve::ordered(Stage::Routing, policy) is BuildRouter,
        serve::ordered(Stage::InstallingSignals, policy) is InstallSignals,
        serve::ordered(Stage::Resuming, policy) is ResumeRecoveredRuns,
        serve::ordered(Stage::Starting, policy) == (Order::StartTasks {
            auto_gc: policy.auto_gc,
            exporter: policy.otlp is Some,
        }),
        serve::ordered(Stage::Serving, policy) == (Order::Serve {
            drain_secs: policy.shutdown_drain_secs,
        }),
        serve::ordered(Stage::Settling { serve_error }, policy) == (Order::Settle {
            deadline_secs: policy.shutdown_settle_secs,
        }),
        serve::ordered(Stage::Done(outcome), policy) == Order::Return(outcome),
{
}

/// Settlement fails exactly where one of its halves does, with the words of the
/// tasks where both do.
pub proof fn a_settlement_fails_with_its_halves(
    tasks: Result<(), String>,
    runs: Result<(), String>,
)
    ensures
        shutdown::settled(tasks, runs) is Settled <==> tasks is Ok && runs is Ok,
        tasks matches Err(detail) ==> shutdown::settled(tasks, runs) == Settlement::Failed(detail),
        tasks is Ok ==> (runs matches Err(detail) ==> shutdown::settled(tasks, runs)
            == Settlement::Failed(detail)),
{
}

} // verus!
