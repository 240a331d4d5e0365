//! Planning of recording sessions.
//!
//! A recording request either enters trigger-driven monitoring or performs
//! one plain bounded recording session.  The decisions — validation of the
//! parameters, the run name, and which initialization steps are still
//! owed — are made here; the caller carries the resulting plan out against
//! the collector and recorder subsystems, which do the actual I/O.

use vstd::prelude::*;

verus! {

use crate::monitor::MonitorConfig;

/// A recording request, as the command line hands it over.
#[derive(Debug)]
pub struct Record {
    /// Name of the run.
    pub run_name: Option<String>,
    /// Interval (in seconds) at which performance data is to be collected.
    pub interval: u64,
    /// Time (in seconds) for which the performance data is to be collected.
    pub period: u64,
    /// Gather profiling data using the system profiler.
    pub profile: bool,
    /// Frequency for profiling (Hz).
    pub perf_frequency: u32,
    /// Profile JVMs, with the given arguments.
    pub profile_java: Option<String>,
    /// Custom PMU config file to use.
    pub pmu_config: Option<String>,
    /// Monitoring mode with this trigger condition.
    pub trigger_metrics: Option<String>,
    /// Consecutive positive conditions needed to start recording.
    pub trigger_times: u32,
    /// Maximum number of recording sessions before complete exit.
    pub trigger_count: u32,
    /// Cooldown period (seconds) before re-arming after a trigger.
    pub cooldown: u64,
    /// Base output directory for triggered runs.
    pub output: Option<String>,
    /// The collectors are already prepared; do not prepare them again.
    pub skip_prep: bool,
}

/// Why a recording request is rejected.
#[derive(Clone, Copy, Debug, PartialEq, Eq, Structural)]
pub enum RecordError {
    /// The collection period is zero.
    ZeroPeriod,
    /// The collection interval is zero.
    ZeroInterval,
    /// The period does not exceed the interval.
    IntervalNotBelowPeriod,
}

/// One plain bounded recording session, ready to carry out.
#[derive(Debug)]
pub struct SessionPlan {
    /// The run name; empty when the request named none.
    pub run_name: String,
    pub interval: u64,
    pub period: u64,
    pub tmp_dir: String,
    pub runlog: String,
    pub pmu_config: Option<String>,
    pub profile_java: Option<String>,
    pub profile: bool,
    pub perf_frequency: u32,
    /// Whether the collectors must still be prepared before collecting.
    pub do_prepare: bool,
}

/// Entering trigger-driven monitoring with this expression and engine
/// configuration.
#[derive(Debug)]
pub struct MonitorSetup {
    pub trigger_expr: String,
    pub config: MonitorConfig,
}

/// What a recording request amounts to.
#[derive(Debug)]
pub enum RecordPlan {
    Monitor(MonitorSetup),
    Session(SessionPlan),
}

pub open spec fn opt_str_view(o: Option<String>) -> Option<Seq<char>> {
    match o {
        Some(s) => Some(s@),
        None => None,
    }
}

/// Decide what a recording request amounts to.  A request with a trigger
/// condition enters monitoring mode, validated when the engine is built; a
/// plain request is validated here — a zero period, a zero interval, or an
/// interval at least as long as the period is rejected — and otherwise
/// becomes a session plan that copies the request, resolves the run name,
/// and owes preparation exactly when the request did not skip it.
pub fn record(req: &Record, tmp_dir: &str, runlog: &str) -> (r: Result<RecordPlan, RecordError>)
    ensures
        req.trigger_metrics matches Some(expr) ==> (r matches Ok(
            RecordPlan::Monitor(m),
        ) && m.trigger_expr@ == expr@ && m.config == (MonitorConfig {
            interval: req.interval,
            period: req.period,
            post: req.period,
            cooldown: req.cooldown,
            trigger_times: req.trigger_times,
            trigger_count: req.trigger_count,
            max_ticks: None,
        })),
        req.trigger_metrics is None && req.period == 0 ==> r == Err::<
            RecordPlan,
            RecordError,
        >(RecordError::ZeroPeriod),
        req.trigger_metrics is None && req.period != 0 && req.interval == 0 ==> r == Err::<
            RecordPlan,
            RecordError,
        >(RecordError::ZeroInterval),
        req.trigger_metrics is None && req.period != 0 && req.interval != 0
            && req.interval >= req.period ==> r == Err::<RecordPlan, RecordError>(
            RecordError::IntervalNotBelowPeriod,
        ),
        req.trigger_metrics is None && req.period != 0 && req.interval != 0
            && req.interval < req.period ==> (r matches Ok(RecordPlan::Session(p)) && {
            &&& (req.run_name matches Some(n) ==> p.run_name@ == n@)
            &&& (req.run_name is None ==> p.run_name@ == Seq::<char>::empty())
            &&& p.interval == req.interval
            &&& p.period == req.period
            &&& p.tmp_dir@ == tmp_dir@
            &&& p.runlog@ == runlog@
            &&& opt_str_view(p.pmu_config) == opt_str_view(req.pmu_config)
            &&& opt_str_view(p.profile_java) == opt_str_view(req.profile_java)
            &&& p.profile == req.profile
            &&& p.perf_frequency == req.perf_frequency
            &&& p.do_prepare == !req.skip_prep
        }),
{
    match &req.trigger_metrics {
        Some(expr) => Ok(
            RecordPlan::Monitor(
                MonitorSetup {
                    trigger_expr: expr.clone(),
                    config: MonitorConfig {
                        interval: req.interval,
                        period: req.period,
                        post: req.period,
                        cooldown: req.cooldown,
                        trigger_times: req.trigger_times,
                        trigger_count: req.trigger_count,
                        max_ticks: None,
                    },
                },
            ),
        ),
        None => {
            if req.period == 0 {
                return Err(RecordError::ZeroPeriod);
            }
            if req.interval == 0 {
                return Err(RecordError::ZeroInterval);
            }
            if req.interval >= req.period {
                return Err(RecordError::IntervalNotBelowPeriod);
            }
            let run_name = match &req.run_name {
                Some(n) => n.clone(),
                None => String::new(),
            };
            let pmu_config = match &req.pmu_config {
                Some(s) => Some(s.clone()),
                None => None,
            };
            let profile_java = match &req.profile_java {
                Some(s) => Some(s.clone()),
                None => None,
            };
            Ok(
                RecordPlan::Session(
                    SessionPlan {
                        run_name,
                        interval: req.interval,
                        period: req.period,
                        tmp_dir: tmp_dir.to_owned(),
                        runlog: runlog.to_owned(),
                        pmu_config,
                        profile_java,
                        profile: req.profile,
                        perf_frequency: req.perf_frequency,
                        do_prepare: !req.skip_prep,
                    },
                ),
            )
        },
    }
}

/// One-time initialization bookkeeping for the collector set.  Preparing
/// the collectors and gathering their static data are heavy; the flags
/// here make sure each happens exactly once per process, however many
/// recording sessions run.
#[derive(Clone, Copy, Debug, PartialEq, Eq, Structural)]
pub struct CollectorSetup {
    pub prepared: bool,
    pub static_collected: bool,
}

impl CollectorSetup {
    /// Nothing initialized yet.
    pub fn new() -> (s: CollectorSetup)
        ensures
            s == (CollectorSetup { prepared: false, static_collected: false }),
    {
        CollectorSetup { prepared: false, static_collected: false }
    }
}

/// Decide whether the collector preparation call is still owed: true
/// exactly on the first request.  The caller performs the preparation when
/// told to; afterwards the collectors count as prepared either way.
pub fn prepare_data_collectors(setup: &mut CollectorSetup) -> (run: bool)
    ensures
        run == !old(setup).prepared,
        final(setup).prepared,
        final(setup).static_collected == old(setup).static_collected,
{
    let run = !setup.prepared;
    setup.prepared = true;
    run
}

/// Decide whether static data still has to be collected: true exactly on
/// the first request, so static data is gathered once per process.
pub fn collect_static_data(setup: &mut CollectorSetup) -> (run: bool)
    ensures
        run == !old(setup).static_collected,
        final(setup).static_collected,
        final(setup).prepared == old(setup).prepared,
{
    let run = !setup.static_collected;
    setup.static_collected = true;
    run
}

} // verus!
