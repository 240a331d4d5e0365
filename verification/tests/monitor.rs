use aperf_monitor::cpu::CpuSnapshot;
use aperf_monitor::monitor::CollectorKind;
use aperf_monitor::monitor::ConfigError;
use aperf_monitor::monitor::MonitorConfig;
use aperf_monitor::monitor::MonitorEngine;
use aperf_monitor::monitor::MonitorInitError;

const KINDS: [CollectorKind; 8] = [
    CollectorKind::CpuUtilization,
    CollectorKind::DiskStats,
    CollectorKind::Vmstat,
    CollectorKind::Meminfo,
    CollectorKind::Interrupts,
    CollectorKind::Netstat,
    CollectorKind::Processes,
    CollectorKind::Sysctl,
];

fn cfg() -> MonitorConfig {
    MonitorConfig {
        interval: 1,
        period: 5,
        post: 10,
        cooldown: 20,
        trigger_times: 2,
        trigger_count: 2,
        max_ticks: None,
    }
}

/// Cumulative counters whose consecutive deltas give the wanted busy
/// percentages, with 100 ticks per interval.
fn snapshots_for_busy(busy_percent: &[u64]) -> Vec<CpuSnapshot> {
    let mut out = Vec::new();
    let mut user: u64 = 0;
    let mut idle: u64 = 0;
    out.push(CpuSnapshot {
        user,
        nice: 0,
        system: 0,
        idle,
        iowait: 0,
        irq: 0,
        softirq: 0,
        steal: 0,
    });
    for b in busy_percent {
        user += b;
        idle += 100 - b;
        out.push(CpuSnapshot {
            user,
            nice: 0,
            system: 0,
            idle,
            iowait: 0,
            irq: 0,
            softirq: 0,
            steal: 0,
        });
    }
    out
}

#[test]
fn end_to_end_trigger_scenario() {
    // interval 1 s, period 5 s, post 10 s, cooldown 20 s, threshold 80%,
    // two consecutive hits required.
    let mut engine = MonitorEngine::new(cfg(), "cpu > 80").unwrap();
    assert_eq!(engine.capacity(), 5);
    assert!(engine.custom_command().is_none());

    // The synthetic busy sequence, consumed from the second tick on: the
    // first tick only primes the CPU delta.
    let snaps = snapshots_for_busy(&[10, 20, 30, 90, 95, 95]);

    let mut fired_at: Vec<u64> = Vec::new();
    for tick in 1u64..=6 {
        for kind in KINDS {
            engine.push_snapshot(kind, vec![tick as u8]);
        }
        let fired = engine.tick(&snaps[(tick - 1) as usize], false, tick);
        if fired {
            fired_at.push(tick);
        }
    }

    // No fire before tick 6; the firing happens at tick 6, when the busy
    // percentages of ticks 5 and 6 (90% and 95%) both exceeded 80%.
    assert_eq!(fired_at, vec![6]);
    assert!(!engine.done());

    // The pre-trigger dump holds at most period / interval = 5 snapshots
    // per kind, and the files carry the timestamped names.
    let files = engine.dump_buffers_to_disk("20240101T000006");
    assert_eq!(files.len(), 8);
    assert_eq!(files[0].name, "cpu_utilization_20240101T000006.bin");
    assert_eq!(files[7].name, "sysctl_20240101T000006.bin");
    for f in &files {
        assert_eq!(f.bytes, vec![2, 3, 4, 5, 6]);
    }

    // The recorder is invoked for the separately configured post window.
    let post = engine.post_record_request("20240101T000006");
    assert_eq!(post.period, 10);
    assert_eq!(post.interval, 1);
    assert!(post.skip_prep);
    assert_eq!(post.run_name, "20240101T000006");

    // The state machine is in cooldown until tick 26.
    assert_eq!(engine.state().cooldown_until, 26);
    assert_eq!(engine.state().consecutive_hits, 0);

    // After a successful dump the buffers are cleared.
    engine.clear_all_buffers();
    let empty = engine.dump_buffers_to_disk("t");
    for f in &empty {
        assert!(f.bytes.is_empty());
    }

    // The condition stays true on every following tick, but no second
    // firing can happen before the cooldown deadline at tick 26.
    let more = snapshots_for_busy(&[95; 25]);
    for tick in 7u64..=25 {
        let fired = engine.tick(&more[(tick - 6) as usize], false, tick);
        assert!(!fired);
    }
    // The first tick past the deadline fires again, and the second firing
    // completes the configured count.
    assert!(engine.tick(&more[20], false, 26));
    assert!(engine.done());
}

#[test]
fn the_priming_tick_never_fires() {
    let mut config = cfg();
    config.trigger_times = 1;
    let mut engine = MonitorEngine::new(config, "cpu >= 0").unwrap();
    let snaps = snapshots_for_busy(&[50]);
    // Even a condition that is always true cannot fire on the first tick:
    // there is no previous snapshot to compare against.
    assert!(!engine.tick(&snaps[0], false, 1));
    assert!(engine.tick(&snaps[1], false, 2));
}

#[test]
fn custom_trigger_takes_the_command_outcome() {
    let mut engine = MonitorEngine::new(cfg(), "custom /bin/true").unwrap();
    assert_eq!(engine.custom_command().unwrap(), "/bin/true");
    let snaps = snapshots_for_busy(&[0, 0, 0]);
    assert!(!engine.tick(&snaps[0], true, 1));
    assert!(!engine.tick(&snaps[1], true, 2));
    // Two consecutive exit-zero outcomes fire, busy percentage unseen.
    assert!(engine.tick(&snaps[2], true, 3));
}

#[test]
fn configuration_is_validated_at_startup() {
    let mut c = cfg();
    c.interval = 0;
    assert!(matches!(
        MonitorEngine::new(c, "cpu > 80").unwrap_err(),
        MonitorInitError::Config(ConfigError::ZeroInterval)
    ));
    let mut c = cfg();
    c.period = 0;
    assert!(matches!(
        MonitorEngine::new(c, "cpu > 80").unwrap_err(),
        MonitorInitError::Config(ConfigError::ZeroPeriod)
    ));
    let mut c = cfg();
    c.period = 1;
    assert!(matches!(
        MonitorEngine::new(c, "cpu > 80").unwrap_err(),
        MonitorInitError::Config(ConfigError::PeriodNotAboveInterval)
    ));
    let mut c = cfg();
    c.trigger_times = 0;
    assert!(matches!(
        MonitorEngine::new(c, "cpu > 80").unwrap_err(),
        MonitorInitError::Config(ConfigError::ZeroTriggerTimes)
    ));
    assert!(matches!(
        MonitorEngine::new(cfg(), "cpu >").unwrap_err(),
        MonitorInitError::Trigger(_)
    ));
}

#[test]
fn the_tick_bound_ends_the_run() {
    let mut config = cfg();
    config.max_ticks = Some(3);
    let mut engine = MonitorEngine::new(config, "cpu > 80").unwrap();
    let snaps = snapshots_for_busy(&[10, 10, 10]);
    assert!(!engine.done());
    engine.tick(&snaps[0], false, 1);
    engine.tick(&snaps[1], false, 2);
    assert!(!engine.done());
    engine.tick(&snaps[2], false, 3);
    assert!(engine.done());
}

#[test]
fn dumping_twice_without_change_is_byte_identical() {
    let mut engine = MonitorEngine::new(cfg(), "cpu > 80").unwrap();
    for kind in KINDS {
        engine.push_snapshot(kind, vec![1, 2, 3]);
        engine.push_snapshot(kind, vec![4]);
    }
    let once = engine.dump_buffers_to_disk("ts");
    let twice = engine.dump_buffers_to_disk("ts");
    for (a, b) in once.iter().zip(twice.iter()) {
        assert_eq!(a.name, b.name);
        assert_eq!(a.bytes, b.bytes);
    }
}
