//! The trigger-driven monitoring engine.
//!
//! The engine owns one bounded history buffer per tracked collector kind,
//! the parsed trigger condition, and the trigger state machine.  Once per
//! tick the caller pushes the fresh serialized snapshots, then hands the
//! engine the current CPU counters, the clock, and — for a `custom`
//! trigger — the command's outcome; the engine derives the busy
//! percentage, evaluates the condition, advances the state machine and
//! says whether this tick fires.  On a firing the caller asks for the
//! pre-trigger dump files and the post-trigger recording request, carries
//! both out, and clears the buffers only after the dump succeeded.
//!
//! The first tick only primes the CPU delta; no condition is evaluated
//! before two snapshots exist.  Cooldown is a plain deadline comparison:
//! the engine keeps sampling and counting during cooldown and never
//! sleeps.

use vstd::prelude::*;

verus! {

use vstd::string::StringExecFns;
use crate::cpu::CpuSnapshot;
use crate::cpu::calculate_cpu_usage;
use crate::cpu::spec_busy_milli;
use crate::eval::MetricValues;
use crate::eval::eval_condition;
use crate::eval::spec_eval;
use crate::history::HistoryBuffer;
use crate::history::spec_push;
use crate::lex::ParseError;
use crate::trigger_parser::ParsedTrigger;
use crate::trigger_parser::SpecParsedTrigger;
use crate::trigger_parser::parse_trigger;
use crate::trigger_parser::parsed_view;
use crate::trigger_parser::spec_parse_trigger;
use crate::trigger_state::TriggerConfig;
use crate::trigger_state::TriggerState;
use crate::trigger_state::spec_done;
use crate::trigger_state::spec_fires;
use crate::trigger_state::spec_sat_add64;
use crate::trigger_state::spec_step_state;
use crate::trigger_state::step;

/// Startup configuration of the monitoring engine.
#[derive(Clone, Copy, Debug)]
pub struct MonitorConfig {
    /// Seconds between two ticks.
    pub interval: u64,
    /// Seconds of pre-trigger history to keep.
    pub period: u64,
    /// Seconds of post-trigger deep recording.
    pub post: u64,
    /// Seconds between two firings.
    pub cooldown: u64,
    /// Consecutive positive evaluations needed for a firing.
    pub trigger_times: u32,
    /// Maximum number of firings before the run is done.
    pub trigger_count: u32,
    /// Optional bound on the number of ticks, for deterministic testing.
    pub max_ticks: Option<u64>,
}

/// Why a monitor configuration is rejected.
#[derive(Clone, Copy, Debug, PartialEq, Eq, Structural)]
pub enum ConfigError {
    ZeroInterval,
    ZeroPeriod,
    /// The pre-trigger period must exceed the sampling interval.
    PeriodNotAboveInterval,
    /// At least one consecutive hit must be required.
    ZeroTriggerTimes,
}

/// Why the engine cannot be built.
#[derive(Clone, Copy, Debug, PartialEq, Eq, Structural)]
pub enum MonitorInitError {
    Config(ConfigError),
    Trigger(ParseError),
}

/// Startup validation: exactly the rejected configurations, each with its
/// error.
pub open spec fn spec_validate(c: MonitorConfig) -> Option<ConfigError> {
    if c.interval == 0 {
        Some(ConfigError::ZeroInterval)
    } else if c.period == 0 {
        Some(ConfigError::ZeroPeriod)
    } else if c.period <= c.interval {
        Some(ConfigError::PeriodNotAboveInterval)
    } else if c.trigger_times == 0 {
        Some(ConfigError::ZeroTriggerTimes)
    } else {
        None
    }
}

/// The state machine configuration within an engine configuration.
pub open spec fn spec_trig_cfg(c: MonitorConfig) -> TriggerConfig {
    TriggerConfig {
        trigger_times: c.trigger_times,
        trigger_count: c.trigger_count,
        cooldown: c.cooldown,
    }
}

/// The tracked collector kinds, one history buffer each.
#[derive(Clone, Copy, Debug, PartialEq, Eq, Structural)]
pub enum CollectorKind {
    CpuUtilization,
    DiskStats,
    Vmstat,
    Meminfo,
    Interrupts,
    Netstat,
    Processes,
    Sysctl,
}

/// The file stem of a kind's dump file.
pub open spec fn spec_stem(k: CollectorKind) -> Seq<char> {
    match k {
        CollectorKind::CpuUtilization => "cpu_utilization"@,
        CollectorKind::DiskStats => "disk_stats"@,
        CollectorKind::Vmstat => "vmstat"@,
        CollectorKind::Meminfo => "meminfo"@,
        CollectorKind::Interrupts => "interrupts"@,
        CollectorKind::Netstat => "netstat"@,
        CollectorKind::Processes => "processes"@,
        CollectorKind::Sysctl => "sysctl"@,
    }
}

/// The dump file name of a kind at a capture timestamp:
/// `<stem>_<timestamp>.bin`.
pub open spec fn spec_dump_name(k: CollectorKind, ts: Seq<char>) -> Seq<char> {
    spec_stem(k) + "_"@ + ts + ".bin"@
}

/// The kind at position `j` of a dump, in the fixed dump order.
pub open spec fn spec_kind_at(j: int) -> CollectorKind {
    if j == 0 {
        CollectorKind::CpuUtilization
    } else if j == 1 {
        CollectorKind::DiskStats
    } else if j == 2 {
        CollectorKind::Vmstat
    } else if j == 3 {
        CollectorKind::Meminfo
    } else if j == 4 {
        CollectorKind::Interrupts
    } else if j == 5 {
        CollectorKind::Netstat
    } else if j == 6 {
        CollectorKind::Processes
    } else {
        CollectorKind::Sysctl
    }
}

impl CollectorKind {
    pub fn file_stem(self) -> (r: &'static str)
        ensures
            r@ == spec_stem(self),
    {
        match self {
            CollectorKind::CpuUtilization => "cpu_utilization",
            CollectorKind::DiskStats => "disk_stats",
            CollectorKind::Vmstat => "vmstat",
            CollectorKind::Meminfo => "meminfo",
            CollectorKind::Interrupts => "interrupts",
            CollectorKind::Netstat => "netstat",
            CollectorKind::Processes => "processes",
            CollectorKind::Sysctl => "sysctl",
        }
    }
}

/// One pre-trigger dump file: its name and its exact bytes.
#[derive(Debug)]
pub struct DumpFile {
    pub name: String,
    pub bytes: Vec<u8>,
}

/// The post-trigger deep recording that a firing calls for.
#[derive(Debug)]
pub struct PostRecordRequest {
    /// The capture timestamp, naming the run.
    pub run_name: String,
    /// The sampling interval, unchanged.
    pub interval: u64,
    /// The separately configured post-trigger duration.
    pub period: u64,
    /// The collectors are already prepared; the recording must not redo
    /// that work.
    pub skip_prep: bool,
}

/// The metric map of one tick: the CPU busy percentage, in thousandths.
pub open spec fn cpu_metrics(busy: int) -> Seq<(Seq<char>, int)> {
    seq![("cpu"@, busy)]
}

/// The condition evaluation of one tick.  The priming tick — no previous
/// snapshot yet — evaluates nothing and counts as a miss; afterwards a
/// `custom` trigger takes the command's outcome and an expression trigger
/// is evaluated over the busy percentage.
pub open spec fn spec_tick_hit(
    cond: SpecParsedTrigger,
    prev: Option<CpuSnapshot>,
    curr: CpuSnapshot,
    custom_ok: bool,
) -> bool {
    match prev {
        Option::None => false,
        Option::Some(p) => match cond {
            SpecParsedTrigger::Custom(_) => custom_ok,
            SpecParsedTrigger::Expression(c) => spec_eval(
                c,
                cpu_metrics(spec_busy_milli(p, curr)),
            ),
        },
    }
}

/// Whether the monitoring run is over: the configured number of firings
/// was reached, or the optional tick bound ran out.
pub open spec fn spec_engine_done(c: MonitorConfig, st: TriggerState, ticks: u64) -> bool {
    spec_done(spec_trig_cfg(c), st) || match c.max_ticks {
        Option::Some(m) => ticks >= m,
        Option::None => false,
    }
}

/// The monitoring engine.
#[derive(Debug)]
pub struct MonitorEngine {
    config: MonitorConfig,
    condition: ParsedTrigger,
    capacity: usize,
    state: TriggerState,
    prev_cpu: Option<CpuSnapshot>,
    ticks_done: u64,
    buf_cpu: HistoryBuffer,
    buf_disk: HistoryBuffer,
    buf_vm: HistoryBuffer,
    buf_mem: HistoryBuffer,
    buf_intr: HistoryBuffer,
    buf_net: HistoryBuffer,
    buf_proc: HistoryBuffer,
    buf_sysctl: HistoryBuffer,
}

impl MonitorEngine {
    pub closed spec fn cfg(&self) -> MonitorConfig {
        self.config
    }

    pub closed spec fn cond(&self) -> SpecParsedTrigger {
        parsed_view(self.condition)
    }

    pub closed spec fn st(&self) -> TriggerState {
        self.state
    }

    pub closed spec fn prev(&self) -> Option<CpuSnapshot> {
        self.prev_cpu
    }

    pub closed spec fn ticks(&self) -> u64 {
        self.ticks_done
    }

    /// The shared capacity of every history buffer.
    pub closed spec fn cap(&self) -> nat {
        self.capacity as nat
    }

    /// The contents of one kind's history buffer.
    pub closed spec fn buf(&self, k: CollectorKind) -> Seq<Seq<u8>> {
        match k {
            CollectorKind::CpuUtilization => self.buf_cpu@,
            CollectorKind::DiskStats => self.buf_disk@,
            CollectorKind::Vmstat => self.buf_vm@,
            CollectorKind::Meminfo => self.buf_mem@,
            CollectorKind::Interrupts => self.buf_intr@,
            CollectorKind::Netstat => self.buf_net@,
            CollectorKind::Processes => self.buf_proc@,
            CollectorKind::Sysctl => self.buf_sysctl@,
        }
    }

    /// A validated engine: the configuration passed startup validation,
    /// the capacity is the pre-trigger window in ticks, and every buffer
    /// respects it.
    pub closed spec fn wf(&self) -> bool {
        &&& spec_validate(self.config) is None
        &&& self.capacity == (self.config.period / self.config.interval) as usize
        &&& self.buf_cpu.wf() && self.buf_cpu.cap() == self.capacity
        &&& self.buf_disk.wf() && self.buf_disk.cap() == self.capacity
        &&& self.buf_vm.wf() && self.buf_vm.cap() == self.capacity
        &&& self.buf_mem.wf() && self.buf_mem.cap() == self.capacity
        &&& self.buf_intr.wf() && self.buf_intr.cap() == self.capacity
        &&& self.buf_net.wf() && self.buf_net.cap() == self.capacity
        &&& self.buf_proc.wf() && self.buf_proc.cap() == self.capacity
        &&& self.buf_sysctl.wf() && self.buf_sysctl.cap() == self.capacity
    }

    /// Build the engine: validate the configuration, parse the trigger,
    /// and size the buffers to `period / interval` snapshots.
    pub fn new(config: MonitorConfig, trigger_expr: &str) -> (r: Result<
        MonitorEngine,
        MonitorInitError,
    >)
        ensures
            spec_validate(config) matches Some(e) ==> r == Err::<MonitorEngine, MonitorInitError>(
                MonitorInitError::Config(e),
            ),
            spec_validate(config) is None ==> (spec_parse_trigger(trigger_expr@) matches Err(pe)
                ==> r == Err::<MonitorEngine, MonitorInitError>(MonitorInitError::Trigger(pe))),
            spec_validate(config) is None ==> (spec_parse_trigger(trigger_expr@) matches Ok(p) ==> (
            r matches Ok(eng) && {
                &&& eng.wf()
                &&& eng.cfg() == config
                &&& eng.cond() == p
                &&& eng.st() == (TriggerState {
                    consecutive_hits: 0,
                    trigger_count_done: 0,
                    cooldown_until: 0,
                })
                &&& eng.prev() is None
                &&& eng.ticks() == 0
                &&& eng.cap() == ((config.period / config.interval) as usize as nat)
                &&& forall|k: CollectorKind| (#[trigger] eng.buf(k)) =~= Seq::<Seq<u8>>::empty()
            })),
    {
        if config.interval == 0 {
            return Err(MonitorInitError::Config(ConfigError::ZeroInterval));
        }
        if config.period == 0 {
            return Err(MonitorInitError::Config(ConfigError::ZeroPeriod));
        }
        if config.period <= config.interval {
            return Err(MonitorInitError::Config(ConfigError::PeriodNotAboveInterval));
        }
        if config.trigger_times == 0 {
            return Err(MonitorInitError::Config(ConfigError::ZeroTriggerTimes));
        }
        let condition = match parse_trigger(trigger_expr) {
            Ok(p) => p,
            Err(e) => {
                return Err(MonitorInitError::Trigger(e));
            },
        };
        let capacity = (config.period / config.interval) as usize;
        Ok(
            MonitorEngine {
                config,
                condition,
                capacity,
                state: TriggerState::new(),
                prev_cpu: None,
                ticks_done: 0,
                buf_cpu: HistoryBuffer::new(capacity),
                buf_disk: HistoryBuffer::new(capacity),
                buf_vm: HistoryBuffer::new(capacity),
                buf_mem: HistoryBuffer::new(capacity),
                buf_intr: HistoryBuffer::new(capacity),
                buf_net: HistoryBuffer::new(capacity),
                buf_proc: HistoryBuffer::new(capacity),
                buf_sysctl: HistoryBuffer::new(capacity),
            },
        )
    }

    pub fn capacity(&self) -> (c: usize)
        ensures
            c == self.cap(),
    {
        self.capacity
    }

    /// The current trigger state, for observation.
    pub fn state(&self) -> (s: TriggerState)
        ensures
            s == self.st(),
    {
        self.state
    }

    /// The shell command of a `custom` trigger, if the condition is one;
    /// the caller runs it each tick and hands back whether it exited with
    /// status zero.
    pub fn custom_command(&self) -> (r: Option<String>)
        ensures
            match r {
                Some(c) => self.cond() matches SpecParsedTrigger::Custom(cmd) && c@ == cmd,
                None => self.cond() is Expression,
            },
    {
        match &self.condition {
            ParsedTrigger::Custom(c) => Some(c.clone()),
            ParsedTrigger::Expression(_) => None,
        }
    }

    /// Store one fresh serialized snapshot in its kind's buffer, evicting
    /// the oldest entry once the buffer is at capacity.
    pub fn push_snapshot(&mut self, kind: CollectorKind, blob: Vec<u8>)
        requires
            old(self).wf(),
        ensures
            final(self).wf(),
            final(self).cfg() == old(self).cfg(),
            final(self).cond() == old(self).cond(),
            final(self).st() == old(self).st(),
            final(self).prev() == old(self).prev(),
            final(self).ticks() == old(self).ticks(),
            final(self).cap() == old(self).cap(),
            final(self).buf(kind) =~= spec_push(old(self).buf(kind), old(self).cap(), blob@),
            forall|k: CollectorKind|
                k != kind ==> (#[trigger] final(self).buf(k)) == old(self).buf(k),
    {
        match kind {
            CollectorKind::CpuUtilization => self.buf_cpu.push(blob),
            CollectorKind::DiskStats => self.buf_disk.push(blob),
            CollectorKind::Vmstat => self.buf_vm.push(blob),
            CollectorKind::Meminfo => self.buf_mem.push(blob),
            CollectorKind::Interrupts => self.buf_intr.push(blob),
            CollectorKind::Netstat => self.buf_net.push(blob),
            CollectorKind::Processes => self.buf_proc.push(blob),
            CollectorKind::Sysctl => self.buf_sysctl.push(blob),
        }
    }

    /// One tick: derive the busy percentage from the previous and current
    /// CPU counters, evaluate the condition, advance the state machine.
    /// Returns whether this tick fires; the caller then dumps, records and
    /// clears.  `custom_ok` is the custom command's outcome and is ignored
    /// unless the trigger is a `custom` clause.
    pub fn tick(&mut self, curr_cpu: &CpuSnapshot, custom_ok: bool, now: u64) -> (fired: bool)
        requires
            old(self).wf(),
        ensures
            final(self).wf(),
            final(self).cfg() == old(self).cfg(),
            final(self).cond() == old(self).cond(),
            final(self).cap() == old(self).cap(),
            forall|k: CollectorKind| (#[trigger] final(self).buf(k)) == old(self).buf(k),
            final(self).prev() == Some(*curr_cpu),
            final(self).ticks() == spec_sat_add64(old(self).ticks(), 1),
            fired == spec_fires(
                spec_trig_cfg(old(self).cfg()),
                old(self).st(),
                spec_tick_hit(old(self).cond(), old(self).prev(), *curr_cpu, custom_ok),
                now,
            ),
            final(self).st() == spec_step_state(
                spec_trig_cfg(old(self).cfg()),
                old(self).st(),
                spec_tick_hit(old(self).cond(), old(self).prev(), *curr_cpu, custom_ok),
                now,
            ),
    {
        let hit: bool = match &self.prev_cpu {
            None => false,
            Some(p) => match &self.condition {
                ParsedTrigger::Custom(_) => custom_ok,
                ParsedTrigger::Expression(c) => {
                    let busy = calculate_cpu_usage(p, curr_cpu);
                    let mut metrics = MetricValues::new();
                    metrics.push("cpu", busy as i64);
                    proof {
                        assert(metrics@ =~= cpu_metrics(spec_busy_milli(*p, *curr_cpu)));
                    }
                    eval_condition(c, &metrics)
                },
            },
        };
        self.prev_cpu = Some(*curr_cpu);
        self.ticks_done = if self.ticks_done == u64::MAX {
            u64::MAX
        } else {
            self.ticks_done + 1
        };
        let tc = TriggerConfig {
            trigger_times: self.config.trigger_times,
            trigger_count: self.config.trigger_count,
            cooldown: self.config.cooldown,
        };
        step(&tc, &mut self.state, hit, now)
    }

    /// Whether the monitoring run is over.
    pub fn done(&self) -> (d: bool)
        ensures
            d == spec_engine_done(self.cfg(), self.st(), self.ticks()),
    {
        let fired_out = self.state.trigger_count_done >= self.config.trigger_count;
        let ticks_out = match self.config.max_ticks {
            Some(m) => self.ticks_done >= m,
            None => false,
        };
        fired_out || ticks_out
    }

    /// The pre-trigger dump files of a capture at timestamp `ts`: for each
    /// kind, in the fixed dump order, the file `<stem>_<ts>.bin` holding
    /// the buffered snapshots concatenated in chronological order.  The
    /// buffers are untouched; the caller writes the files and clears the
    /// buffers only after every write succeeded.
    pub fn dump_buffers_to_disk(&self, ts: &str) -> (files: Vec<DumpFile>)
        ensures
            files@.len() == 8,
            forall|j: int|
                0 <= j < 8 ==> (#[trigger] files@[j]).name@ == spec_dump_name(
                    spec_kind_at(j),
                    ts@,
                ) && files@[j].bytes@ == self.buf(spec_kind_at(j)).flatten(),
    {
        let mut files: Vec<DumpFile> = Vec::new();
        files.push(self.dump_one(CollectorKind::CpuUtilization, ts));
        files.push(self.dump_one(CollectorKind::DiskStats, ts));
        files.push(self.dump_one(CollectorKind::Vmstat, ts));
        files.push(self.dump_one(CollectorKind::Meminfo, ts));
        files.push(self.dump_one(CollectorKind::Interrupts, ts));
        files.push(self.dump_one(CollectorKind::Netstat, ts));
        files.push(self.dump_one(CollectorKind::Processes, ts));
        files.push(self.dump_one(CollectorKind::Sysctl, ts));
        files
    }

    fn dump_one(&self, kind: CollectorKind, ts: &str) -> (f: DumpFile)
        ensures
            f.name@ == spec_dump_name(kind, ts@),
            f.bytes@ == self.buf(kind).flatten(),
    {
        let stem = kind.file_stem();
        let mut name = stem.to_owned();
        name.append("_");
        name.append(ts);
        name.append(".bin");
        let bytes = match kind {
            CollectorKind::CpuUtilization => self.buf_cpu.dump_bytes(),
            CollectorKind::DiskStats => self.buf_disk.dump_bytes(),
            CollectorKind::Vmstat => self.buf_vm.dump_bytes(),
            CollectorKind::Meminfo => self.buf_mem.dump_bytes(),
            CollectorKind::Interrupts => self.buf_intr.dump_bytes(),
            CollectorKind::Netstat => self.buf_net.dump_bytes(),
            CollectorKind::Processes => self.buf_proc.dump_bytes(),
            CollectorKind::Sysctl => self.buf_sysctl.dump_bytes(),
        };
        DumpFile { name, bytes }
    }

    /// Empty every history buffer, the explicit step after a successful
    /// dump.  Capacities and all other state are kept.
    pub fn clear_all_buffers(&mut self)
        requires
            old(self).wf(),
        ensures
            final(self).wf(),
            final(self).cfg() == old(self).cfg(),
            final(self).cond() == old(self).cond(),
            final(self).st() == old(self).st(),
            final(self).prev() == old(self).prev(),
            final(self).ticks() == old(self).ticks(),
            final(self).cap() == old(self).cap(),
            forall|k: CollectorKind| (#[trigger] final(self).buf(k)) =~= Seq::<Seq<u8>>::empty(),
    {
        self.buf_cpu.clear();
        self.buf_disk.clear();
        self.buf_vm.clear();
        self.buf_mem.clear();
        self.buf_intr.clear();
        self.buf_net.clear();
        self.buf_proc.clear();
        self.buf_sysctl.clear();
    }

    /// The post-trigger deep recording that a firing at timestamp `ts`
    /// calls for: the run named by the timestamp, the same sampling
    /// interval, the separately configured post-trigger duration, and no
    /// repeated preparation.
    pub fn post_record_request(&self, ts: &str) -> (r: PostRecordRequest)
        ensures
            r.run_name@ == ts@,
            r.interval == self.cfg().interval,
            r.period == self.cfg().post,
            r.skip_prep,
    {
        PostRecordRequest {
            run_name: ts.to_owned(),
            interval: self.config.interval,
            period: self.config.post,
            skip_prep: true,
        }
    }
}

} // verus!
