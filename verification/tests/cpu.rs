use aperf_monitor::cpu::calculate_cpu_usage;
use aperf_monitor::cpu::CpuSnapshot;
use aperf_monitor::cpu::FULL_SCALE;

fn snap(user: u64, system: u64, idle: u64) -> CpuSnapshot {
    CpuSnapshot {
        user,
        nice: 0,
        system,
        idle,
        iowait: 0,
        irq: 0,
        softirq: 0,
        steal: 0,
    }
}

#[test]
fn busy_is_the_complement_of_idle() {
    // Over the interval: 30 user ticks, 20 system ticks, 50 idle ticks.
    let prev = snap(100, 100, 100);
    let curr = snap(130, 120, 150);
    // idle is 50 of 100 ticks: busy 50.000%.
    assert_eq!(calculate_cpu_usage(&prev, &curr), 50000);
}

#[test]
fn fully_busy_and_fully_idle() {
    let prev = snap(0, 0, 0);
    assert_eq!(calculate_cpu_usage(&prev, &snap(100, 0, 0)), FULL_SCALE);
    assert_eq!(calculate_cpu_usage(&prev, &snap(0, 0, 100)), 0);
}

#[test]
fn empty_interval_reads_zero_busy() {
    let s = snap(5, 5, 5);
    assert_eq!(calculate_cpu_usage(&s, &s), 0);
}

#[test]
fn wrapped_counters_clamp_to_zero_delta() {
    // The idle counter went backwards (a reset): its delta clamps to zero
    // rather than turning negative, so the interval reads fully busy.
    let prev = snap(100, 0, 1000);
    let curr = snap(200, 0, 500);
    assert_eq!(calculate_cpu_usage(&prev, &curr), FULL_SCALE);
    // All counters went backwards: an empty delta, zero busy.
    assert_eq!(calculate_cpu_usage(&curr, &snap(0, 0, 0)), 0);
}

#[test]
fn busy_stays_within_zero_and_one_hundred_percent() {
    let snaps = [
        snap(0, 0, 0),
        snap(u64::MAX, 0, 0),
        snap(0, u64::MAX, u64::MAX),
        snap(123, 456, 789),
        snap(u64::MAX, u64::MAX, u64::MAX),
    ];
    for prev in &snaps {
        for curr in &snaps {
            let busy = calculate_cpu_usage(prev, curr);
            assert!(busy <= FULL_SCALE);
        }
    }
}

#[test]
fn fractional_percentages_round_down() {
    // 1 busy tick of 3 total: idle is 2/3 = 66.666%, busy 33.334%.
    let prev = snap(0, 0, 0);
    let curr = snap(1, 0, 2);
    assert_eq!(calculate_cpu_usage(&prev, &curr), 33334);
}
