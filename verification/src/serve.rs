//! Boot, serving and shutdown of a server, as a state machine. The caller
//! carries out what each stage orders and reports what came of it; which stage
//! follows is decided here.
use vstd::prelude::*;
use vstd::string::*;
use crate::policy::ResolvedServerPolicy;
use crate::shutdown;
use crate::shutdown::Settlement;

verus! {

/// How far a server has come.
#[derive(Debug)]
pub enum Stage {
    Constructing,
    Routing,
    InstallingSignals,
    Resuming,
    Starting,
    Serving,
    Settling { serve_error: Option<String> },
    Done(Result<(), String>),
}

/// A stage, as a mathematical value. `Done` carries what failed, if anything
/// did.
pub enum StageModel {
    Constructing,
    Routing,
    InstallingSignals,
    Resuming,
    Starting,
    Serving,
    Settling(Option<Seq<char>>),
    Done(Option<Seq<char>>),
}

impl View for Stage {
    type V = StageModel;

    open spec fn view(&self) -> StageModel {
        match *self {
            Stage::Constructing => StageModel::Constructing,
            Stage::Routing => StageModel::Routing,
            Stage::InstallingSignals => StageModel::InstallingSignals,
            Stage::Resuming => StageModel::Resuming,
            Stage::Starting => StageModel::Starting,
            Stage::Serving => StageModel::Serving,
            Stage::Settling { serve_error } => StageModel::Settling(serve_error.deep_view()),
            Stage::Done(Ok(())) => StageModel::Done(None),
            Stage::Done(Err(failure)) => StageModel::Done(Some(failure@)),
        }
    }
}

/// What a stage orders.
#[derive(Debug)]
pub enum Order {
    /// Lock the run store and build the service; no run is recovered by it.
    Construct,
    BuildRouter,
    InstallSignals,
    /// Take up the runs that an earlier process left behind.
    ResumeRecoveredRuns,
    StartTasks { auto_gc: bool, exporter: bool },
    /// Serve until the shutdown signal, and drain for at most so long.
    Serve { drain_secs: u64 },
    /// Stop tasks and runs, within so long.
    Settle { deadline_secs: u64 },
    Return(Result<(), String>),
}

/// What came of an order.
#[derive(Debug)]
pub enum Report {
    Constructed(Result<(), String>),
    Routed(Result<(), String>),
    SignalsInstalled(Result<(), String>),
    Resumed,
    Started,
    /// How serving ended; `None` when the drain was cut off.
    Served(Option<Result<(), String>>),
    Settled(Settlement),
}

/// The order of a stage.
pub open spec fn ordered(stage: Stage, policy: ResolvedServerPolicy) -> Order {
    match stage {
        Stage::Constructing => Order::Construct,
        Stage::Routing => Order::BuildRouter,
        Stage::InstallingSignals => Order::InstallSignals,
        Stage::Resuming => Order::ResumeRecoveredRuns,
        Stage::Starting => Order::StartTasks {
            auto_gc: policy.auto_gc,
            exporter: policy.otlp is Some,
        },
        Stage::Serving => Order::Serve { drain_secs: policy.shutdown_drain_secs },
        Stage::Settling { .. } => Order::Settle { deadline_secs: policy.shutdown_settle_secs },
        Stage::Done(outcome) => Order::Return(outcome),
    }
}

/// What a stage orders under a policy.
pub fn order(stage: &Stage, policy: &ResolvedServerPolicy) -> (r: Order)
    ensures
        r == ordered(*stage, *policy),
{
    match stage {
        Stage::Constructing => Order::Construct,
        Stage::Routing => Order::BuildRouter,
        Stage::InstallingSignals => Order::InstallSignals,
        Stage::Resuming => Order::ResumeRecoveredRuns,
        Stage::Starting => Order::StartTasks {
            auto_gc: policy.auto_gc,
            exporter: policy.otlp.is_some(),
        },
        Stage::Serving => Order::Serve { drain_secs: policy.shutdown_drain_secs },
        Stage::Settling { .. } => Order::Settle { deadline_secs: policy.shutdown_settle_secs },
        Stage::Done(Ok(done)) => Order::Return(Ok(*done)),
        Stage::Done(Err(failure)) => Order::Return(Err(failure.clone())),
    }
}

/// The stage after one that can refuse the boot.
pub open spec fn unless_refused(
    done: Result<(), String>,
    prefix: Seq<char>,
    following: StageModel,
) -> StageModel {
    match done {
        Ok(()) => following,
        Err(detail) => StageModel::Done(Some(prefix + detail@)),
    }
}

/// The stage that follows a report. Recovery begins only when nothing can
/// refuse the boot any more, and whatever was started is settled in the end. A
/// report that the stage does not wait for changes nothing.
pub open spec fn following(stage: StageModel, report: Report, deadline_secs: u64) -> StageModel {
    match (stage, report) {
        (StageModel::Constructing, Report::Constructed(done)) => unless_refused(
            done,
            ""@,
            StageModel::Routing,
        ),
        (StageModel::Routing, Report::Routed(done)) => unless_refused(
            done,
            ""@,
            StageModel::InstallingSignals,
        ),
        (StageModel::InstallingSignals, Report::SignalsInstalled(done)) => unless_refused(
            done,
            "failed to install SIGTERM handler: "@,
            StageModel::Resuming,
        ),
        (StageModel::Resuming, Report::Resumed) => StageModel::Starting,
        (StageModel::Starting, Report::Started) => StageModel::Serving,
        (StageModel::Serving, Report::Served(served)) => StageModel::Settling(
            match served {
                Some(Err(detail)) => Some(detail@),
                _ => None,
            },
        ),
        (StageModel::Settling(serve_error), Report::Settled(settlement)) => StageModel::Done(
            shutdown::serve_report(serve_error, settlement, deadline_secs),
        ),
        _ => stage,
    }
}

/// Serving with a policy that was resolved before: the service is constructed
/// first.
pub fn serve_with_resolved_policy() -> (r: Stage)
    ensures
        r@ == StageModel::Constructing,
{
    Stage::Constructing
}

/// Serving with a policy that is resolved now: a policy that does not resolve
/// refuses the boot before anything is constructed.
pub fn serve_with_listener(resolved: &Result<ResolvedServerPolicy, String>) -> (r: Stage)
    ensures
        r@ == match *resolved {
            Ok(_) => StageModel::Constructing,
            Err(detail) => StageModel::Done(Some("invalid server configuration: "@ + detail@)),
        },
{
    match resolved {
        Ok(_) => Stage::Constructing,
        Err(detail) => {
            let mut refusal = "invalid server configuration: ".to_owned();
            refusal.append(detail.as_str());
            Stage::Done(Err(refusal))
        },
    }
}

fn after(done: Result<(), String>, prefix: &str, next: Stage) -> (r: Stage)
    ensures
        r@ == unless_refused(done, prefix@, next@),
{
    match done {
        Ok(()) => next,
        Err(detail) => {
            let mut refusal = prefix.to_owned();
            refusal.append(detail.as_str());
            Stage::Done(Err(refusal))
        },
    }
}

/// Takes a server to its next stage.
pub fn advance(stage: Stage, report: Report, policy: &ResolvedServerPolicy) -> (r: Stage)
    ensures
        r@ == following(stage@, report, policy.shutdown_settle_secs),
{
    match (stage, report) {
        (Stage::Constructing, Report::Constructed(done)) => after(done, "", Stage::Routing),
        (Stage::Routing, Report::Routed(done)) => after(done, "", Stage::InstallingSignals),
        (Stage::InstallingSignals, Report::SignalsInstalled(done)) => after(
            done,
            "failed to install SIGTERM handler: ",
            Stage::Resuming,
        ),
        (Stage::Resuming, Report::Resumed) => Stage::Starting,
        (Stage::Starting, Report::Started) => Stage::Serving,
        (Stage::Serving, Report::Served(served)) => Stage::Settling {
            serve_error: shutdown::after_drain(served),
        },
        (Stage::Settling { serve_error }, Report::Settled(settlement)) => Stage::Done(
            shutdown::serve_outcome(serve_error, settlement, policy.shutdown_settle_secs),
        ),
        (stage, _) => stage,
    }
}

/// The stage that a server reaches from construction over these reports.
pub open spec fn course(reports: Seq<Report>, deadline_secs: u64) -> StageModel
    decreases reports.len(),
{
    if reports.len() == 0 {
        StageModel::Constructing
    } else {
        following(course(reports.drop_last(), deadline_secs), reports.last(), deadline_secs)
    }
}

/// The stages from recovery until the end of settlement.
pub open spec fn live(stage: StageModel) -> bool {
    stage is Resuming || stage is Starting || stage is Serving || stage is Settling
}

/// Recovery follows a complete boot: where a server has come to resuming runs
/// or further, the service was constructed, then the router was built, then the
/// signal handlers were installed, each with success. The places of the three
/// reports are returned.
pub proof fn recovery_follows_a_complete_boot(reports: Seq<Report>, deadline_secs: u64) -> (at: (
    int,
    int,
    int,
))
    requires
        live(course(reports, deadline_secs)),
    ensures
        0 <= at.0 < at.1 < at.2 < reports.len(),
        reports[at.0] matches Report::Constructed(Ok(())),
        reports[at.1] matches Report::Routed(Ok(())),
        reports[at.2] matches Report::SignalsInstalled(Ok(())),
    decreases reports.len(),
{
    let earlier = reports.drop_last();
    if live(course(earlier, deadline_secs)) {
        recovery_follows_a_complete_boot(earlier, deadline_secs)
    } else {
        let at = routed_before_signals(earlier, deadline_secs);
        (at.0, at.1, reports.len() - 1)
    }
}

proof fn constructed_before_routing(reports: Seq<Report>, deadline_secs: u64) -> (at: int)
    requires
        course(reports, deadline_secs) is Routing,
    ensures
        0 <= at < reports.len(),
        reports[at] matches Report::Constructed(Ok(())),
    decreases reports.len(),
{
    let earlier = reports.drop_last();
    if course(earlier, deadline_secs) is Routing {
        constructed_before_routing(earlier, deadline_secs)
    } else {
        reports.len() - 1
    }
}

proof fn routed_before_signals(reports: Seq<Report>, deadline_secs: u64) -> (at: (int, int))
    requires
        course(reports, deadline_secs) is InstallingSignals,
    ensures
        0 <= at.0 < at.1 < reports.len(),
        reports[at.0] matches Report::Constructed(Ok(())),
        reports[at.1] matches Report::Routed(Ok(())),
    decreases reports.len(),
{
    let earlier = reports.drop_last();
    if course(earlier, deadline_secs) is InstallingSignals {
        routed_before_signals(earlier, deadline_secs)
    } else {
        (constructed_before_routing(earlier, deadline_secs), reports.len() - 1)
    }
}

/// A refused boot is over: whatever is reported after a refusal of
/// construction, router or signal handlers, no stage follows, so no run is
/// recovered, no task is started and no request is served.
pub proof fn a_refused_boot_is_over(
    reports: Seq<Report>,
    refused: Report,
    more: Seq<Report>,
    deadline_secs: u64,
)
    requires
        match course(reports, deadline_secs) {
            StageModel::Constructing => refused matches Report::Constructed(Err(_)),
            StageModel::Routing => refused matches Report::Routed(Err(_)),
            StageModel::InstallingSignals => refused matches Report::SignalsInstalled(Err(_)),
            _ => false,
        },
    ensures
        course(reports.push(refused) + more, deadline_secs) matches StageModel::Done(Some(_)),
        course(reports.push(refused) + more, deadline_secs) == course(
            reports.push(refused),
            deadline_secs,
        ),
    decreases more.len(),
{
    let boot = reports.push(refused);
    assert(boot.drop_last() == reports);
    if more.len() == 0 {
        assert(boot + more == boot);
    } else {
        a_refused_boot_is_over(reports, refused, more.drop_last(), deadline_secs);
        assert((boot + more).drop_last() == boot + more.drop_last());
    }
}

/// What was started is settled: a server that had come to resuming runs, or
/// further, ends in no other way than by a report of its settlement, and what
/// it returns tells of that settlement.
pub proof fn what_was_started_is_settled(
    reports: Seq<Report>,
    more: Seq<Report>,
    deadline_secs: u64,
)
    requires
        live(course(reports, deadline_secs)),
        course(reports + more, deadline_secs) is Done,
    ensures
        exists|i: int|
            0 <= i < more.len() && (#[trigger] more[i] matches Report::Settled(settlement) && exists|
                serve_error: Option<Seq<char>>,
            | #[trigger]
                shutdown::serve_report(serve_error, settlement, deadline_secs) == course(
                    reports + more,
                    deadline_secs,
                )->Done_0),
    decreases more.len(),
{
    if more.len() == 0 {
        assert(reports + more == reports);
    } else {
        let fewer = more.drop_last();
        assert((reports + more).drop_last() == reports + fewer);
        let before = course(reports + fewer, deadline_secs);
        if before is Done {
            what_was_started_is_settled(reports, fewer, deadline_secs);
            let i = choose|i: int|
                0 <= i < fewer.len() && (#[trigger] fewer[i] matches Report::Settled(settlement)
                    && exists|serve_error: Option<Seq<char>>| #[trigger]
                    shutdown::serve_report(serve_error, settlement, deadline_secs) == course(
                        reports + fewer,
                        deadline_secs,
                    )->Done_0);
            assert(more[i] == fewer[i]);
        } else {
            stays_live(reports, fewer, deadline_secs);
            assert(more[more.len() - 1] == more.last());
            let settlement = more.last()->Settled_0;
            assert(shutdown::serve_report(before->Settling_0, settlement, deadline_secs) == course(
                reports + more,
                deadline_secs,
            )->Done_0);
        }
    }
}

proof fn stays_live(reports: Seq<Report>, more: Seq<Report>, deadline_secs: u64)
    requires
        live(course(reports, deadline_secs)),
    ensures
        live(course(reports + more, deadline_secs)) || course(reports + more, deadline_secs) is Done,
    decreases more.len(),
{
    if more.len() == 0 {
        assert(reports + more == reports);
    } else {
        stays_live(reports, more.drop_last(), deadline_secs);
        assert((reports + more).drop_last() == reports + more.drop_last());
    }
}

} // verus!
