use aperf_monitor::trigger_state::done;
use aperf_monitor::trigger_state::step;
use aperf_monitor::trigger_state::TriggerConfig;
use aperf_monitor::trigger_state::TriggerState;

fn cfg(trigger_times: u32, trigger_count: u32, cooldown: u64) -> TriggerConfig {
    TriggerConfig {
        trigger_times,
        trigger_count,
        cooldown,
    }
}

#[test]
fn fires_only_after_enough_consecutive_hits() {
    let c = cfg(3, 10, 0);
    let mut st = TriggerState::new();
    assert!(!step(&c, &mut st, true, 1));
    assert!(!step(&c, &mut st, true, 2));
    // A miss resets the count.
    assert!(!step(&c, &mut st, false, 3));
    assert_eq!(st.consecutive_hits, 0);
    assert!(!step(&c, &mut st, true, 4));
    assert!(!step(&c, &mut st, true, 5));
    assert!(step(&c, &mut st, true, 6));
    assert_eq!(st.trigger_count_done, 1);
}

#[test]
fn firing_resets_hits_and_sets_the_cooldown_deadline() {
    let c = cfg(1, 10, 20);
    let mut st = TriggerState::new();
    assert!(step(&c, &mut st, true, 100));
    assert_eq!(st.consecutive_hits, 0);
    assert_eq!(st.cooldown_until, 120);
}

#[test]
fn no_refire_before_the_cooldown_elapses() {
    let c = cfg(2, 10, 20);
    let mut st = TriggerState::new();
    assert!(!step(&c, &mut st, true, 1));
    assert!(step(&c, &mut st, true, 2));
    // The condition stays true on every following tick, but nothing can
    // fire before the deadline at 22.
    for now in 3..22 {
        assert!(!step(&c, &mut st, true, now));
    }
    // Counting went on during cooldown, so the first tick past the
    // deadline fires at once.
    assert!(st.consecutive_hits >= 2);
    assert!(step(&c, &mut st, true, 22));
    assert_eq!(st.trigger_count_done, 2);
}

#[test]
fn cooldown_gates_firing_not_counting() {
    let c = cfg(5, 10, 100);
    let mut st = TriggerState::new();
    assert!(step(&c, &mut st, true, 0) == false);
    assert!(!step(&c, &mut st, true, 1));
    assert!(!step(&c, &mut st, true, 2));
    assert!(!step(&c, &mut st, true, 3));
    assert!(step(&c, &mut st, true, 4));
    // During cooldown the counter keeps advancing.
    for now in 5..10 {
        assert!(!step(&c, &mut st, true, now));
    }
    assert_eq!(st.consecutive_hits, 5);
}

#[test]
fn the_run_ends_at_the_configured_firing_count() {
    let c = cfg(1, 2, 0);
    let mut st = TriggerState::new();
    assert!(!done(&c, &st));
    assert!(step(&c, &mut st, true, 1));
    assert!(!done(&c, &st));
    assert!(step(&c, &mut st, true, 2));
    assert!(done(&c, &st));
}

#[test]
fn a_miss_never_fires_even_outside_cooldown() {
    let c = cfg(1, 10, 0);
    let mut st = TriggerState::new();
    assert!(!step(&c, &mut st, false, 1));
    assert!(!step(&c, &mut st, false, 1000));
    assert_eq!(st.trigger_count_done, 0);
}
