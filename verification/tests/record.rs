use aperf_monitor::record::collect_static_data;
use aperf_monitor::record::prepare_data_collectors;
use aperf_monitor::record::record;
use aperf_monitor::record::CollectorSetup;
use aperf_monitor::record::Record;
use aperf_monitor::record::RecordError;
use aperf_monitor::record::RecordPlan;

fn request() -> Record {
    Record {
        run_name: None,
        interval: 1,
        period: 10,
        profile: false,
        perf_frequency: 99,
        profile_java: None,
        pmu_config: None,
        trigger_metrics: None,
        trigger_times: 1,
        trigger_count: 10,
        cooldown: 1200,
        output: None,
        skip_prep: false,
    }
}

#[test]
fn zero_period_is_rejected() {
    let mut r = request();
    r.period = 0;
    assert_eq!(
        record(&r, "/tmp/x", "/tmp/log").unwrap_err(),
        RecordError::ZeroPeriod
    );
}

#[test]
fn zero_interval_is_rejected() {
    let mut r = request();
    r.interval = 0;
    assert_eq!(
        record(&r, "/tmp/x", "/tmp/log").unwrap_err(),
        RecordError::ZeroInterval
    );
}

#[test]
fn interval_must_be_below_period() {
    let mut r = request();
    r.interval = 10;
    r.period = 10;
    assert_eq!(
        record(&r, "/tmp/x", "/tmp/log").unwrap_err(),
        RecordError::IntervalNotBelowPeriod
    );
    r.interval = 11;
    assert_eq!(
        record(&r, "/tmp/x", "/tmp/log").unwrap_err(),
        RecordError::IntervalNotBelowPeriod
    );
}

#[test]
fn a_plain_request_becomes_a_session_plan() {
    let mut r = request();
    r.run_name = Some("myrun".to_string());
    r.profile = true;
    r.perf_frequency = 42;
    r.pmu_config = Some("pmu.json".to_string());
    match record(&r, "/tmp/aperf", "/tmp/aperf.log").unwrap() {
        RecordPlan::Session(p) => {
            assert_eq!(p.run_name, "myrun");
            assert_eq!(p.interval, 1);
            assert_eq!(p.period, 10);
            assert_eq!(p.tmp_dir, "/tmp/aperf");
            assert_eq!(p.runlog, "/tmp/aperf.log");
            assert_eq!(p.pmu_config.as_deref(), Some("pmu.json"));
            assert!(p.profile);
            assert_eq!(p.perf_frequency, 42);
            assert!(p.do_prepare);
        }
        _ => panic!("expected a session plan"),
    }
}

#[test]
fn an_unnamed_request_gets_an_empty_run_name() {
    match record(&request(), "t", "l").unwrap() {
        RecordPlan::Session(p) => assert_eq!(p.run_name, ""),
        _ => panic!("expected a session plan"),
    }
}

#[test]
fn skip_prep_carries_into_the_plan() {
    let mut r = request();
    r.skip_prep = true;
    match record(&r, "t", "l").unwrap() {
        RecordPlan::Session(p) => assert!(!p.do_prepare),
        _ => panic!("expected a session plan"),
    }
}

#[test]
fn a_trigger_request_enters_monitoring() {
    let mut r = request();
    r.trigger_metrics = Some("cpu > 80".to_string());
    r.period = 5;
    r.cooldown = 20;
    r.trigger_times = 2;
    // A trigger request is not validated here; the engine does that.
    r.interval = 0;
    match record(&r, "t", "l").unwrap() {
        RecordPlan::Monitor(m) => {
            assert_eq!(m.trigger_expr, "cpu > 80");
            assert_eq!(m.config.interval, 0);
            assert_eq!(m.config.period, 5);
            assert_eq!(m.config.post, 5);
            assert_eq!(m.config.cooldown, 20);
            assert_eq!(m.config.trigger_times, 2);
            assert_eq!(m.config.trigger_count, 10);
            assert!(m.config.max_ticks.is_none());
        }
        _ => panic!("expected a monitor plan"),
    }
}

#[test]
fn preparation_and_static_collection_run_exactly_once() {
    let mut setup = CollectorSetup::new();
    assert!(prepare_data_collectors(&mut setup));
    assert!(!prepare_data_collectors(&mut setup));
    assert!(collect_static_data(&mut setup));
    assert!(!collect_static_data(&mut setup));
    assert!(!prepare_data_collectors(&mut setup));
}
