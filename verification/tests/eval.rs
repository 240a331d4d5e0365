use aperf_monitor::eval::evaluate;
use aperf_monitor::eval::EvalOutcome;
use aperf_monitor::eval::MetricValues;
use aperf_monitor::lex::ParseError;

fn metrics(entries: &[(&str, i64)]) -> MetricValues {
    let mut m = MetricValues::new();
    for (name, value) in entries {
        m.push(name, *value);
    }
    m
}

fn truth(expression: &str, m: &MetricValues) -> bool {
    match evaluate(expression, m).unwrap() {
        EvalOutcome::Value(b) => b,
        EvalOutcome::RunCommand(c) => panic!("unexpected custom command {}", c),
    }
}

#[test]
fn cpu_over_eighty() {
    // Values are fixed point in thousandths: 81.0% is 81000.
    let above = metrics(&[("cpu", 81000)]);
    let below = metrics(&[("cpu", 79900)]);
    assert!(truth("cpu > 80", &above));
    assert!(!truth("cpu > 80", &below));
}

#[test]
fn all_six_operators() {
    let m = metrics(&[("cpu", 50000)]);
    assert!(truth("cpu > 49", &m));
    assert!(truth("cpu < 51", &m));
    assert!(truth("cpu >= 50", &m));
    assert!(truth("cpu <= 50", &m));
    assert!(truth("cpu == 50", &m));
    assert!(truth("cpu != 49.999", &m));
    assert!(!truth("cpu > 50", &m));
    assert!(!truth("cpu == 50.001", &m));
}

#[test]
fn connectives_and_parentheses() {
    let m = metrics(&[("cpu", 90000), ("mem", 40000), ("net", 35000)]);
    assert!(truth("cpu > 80 && net > 30", &m));
    assert!(!truth("cpu > 80 && mem > 50", &m));
    assert!(truth("(cpu > 80 && mem > 50) || net > 30", &m));
    assert!(truth("!(mem > 50)", &m));
    assert!(truth("cpu > 80 net > 30", &m));
    assert!(!truth("cpu > 80 mem > 50", &m));
}

#[test]
fn unknown_metric_reads_as_zero() {
    let m = metrics(&[("cpu", 90000)]);
    assert!(!truth("unknownmetric > 5", &m));
    assert!(truth("unknownmetric < 5", &m));
    assert!(truth("unknownmetric == 0", &m));
}

#[test]
fn metric_names_compare_case_insensitively() {
    let m = metrics(&[("CPU", 90000)]);
    assert!(truth("cpu > 80", &m));
    let m2 = metrics(&[("cpu", 90000)]);
    assert!(truth("CpU > 80", &m2));
}

#[test]
fn custom_short_circuits_everything_else() {
    let m = metrics(&[("cpu", 0)]);
    match evaluate("custom /bin/true", &m).unwrap() {
        EvalOutcome::RunCommand(cmd) => assert_eq!(cmd, "/bin/true"),
        _ => panic!("expected a command"),
    }
    match evaluate("custom /bin/false", &m).unwrap() {
        EvalOutcome::RunCommand(cmd) => assert_eq!(cmd, "/bin/false"),
        _ => panic!("expected a command"),
    }
    // Other clauses are ignored, however false they are.
    match evaluate("cpu > 99 && custom /bin/true", &m).unwrap() {
        EvalOutcome::RunCommand(cmd) => assert_eq!(cmd, "/bin/true"),
        _ => panic!("expected a command"),
    }
}

#[test]
fn parse_failures_surface_as_errors() {
    let m = metrics(&[("cpu", 50000)]);
    assert_eq!(evaluate("", &m).unwrap_err(), ParseError::UnexpectedEnd);
    assert_eq!(
        evaluate("cpu > oops", &m).unwrap_err(),
        ParseError::ExpectedComparison
    );
    assert_eq!(
        evaluate("cpu > 1e3", &m).unwrap_err(),
        ParseError::ExpectedComparison
    );
}

#[test]
fn metric_lookup_prefers_the_first_entry() {
    let m = metrics(&[("cpu", 10000), ("cpu", 90000)]);
    assert!(truth("cpu == 10", &m));
    assert_eq!(m.get("cpu"), 10000);
    assert_eq!(m.get("none"), 0);
}
