use aperf_monitor::lex::ComparisonOp;
use aperf_monitor::lex::ParseError;
use aperf_monitor::trigger_parser::parse_cpu_trigger;
use aperf_monitor::trigger_parser::parse_trigger;
use aperf_monitor::trigger_parser::parse_trigger_expression;
use aperf_monitor::trigger_parser::ParsedTrigger;
use aperf_monitor::trigger_parser::TriggerCondition;

#[test]
fn test_simple_condition() {
    let result = parse_trigger_expression("cpu > 80").unwrap();
    match result {
        TriggerCondition::Simple {
            metric,
            operator,
            value,
        } => {
            assert_eq!(metric, "cpu");
            assert_eq!(operator, ComparisonOp::Greater);
            assert_eq!(value as f64 / 1000.0, 80.0);
        }
        _ => panic!("Expected simple condition"),
    }
}

#[test]
fn test_and_condition() {
    let result = parse_trigger_expression("cpu > 80 && mem > 50").unwrap();
    match result {
        TriggerCondition::And(left, right) => {
            // Verify left side
            if let TriggerCondition::Simple {
                metric,
                operator,
                value,
            } = left.as_ref()
            {
                assert_eq!(*metric, "cpu");
                assert_eq!(*operator, ComparisonOp::Greater);
                assert_eq!(*value as f64 / 1000.0, 80.0);
            } else {
                panic!("Expected simple condition on left");
            }

            // Verify right side
            if let TriggerCondition::Simple {
                metric,
                operator,
                value,
            } = right.as_ref()
            {
                assert_eq!(*metric, "mem");
                assert_eq!(*operator, ComparisonOp::Greater);
                assert_eq!(*value as f64 / 1000.0, 50.0);
            } else {
                panic!("Expected simple condition on right");
            }
        }
        _ => panic!("Expected AND condition"),
    }
}

#[test]
fn test_complex_condition() {
    let result = parse_trigger_expression("(cpu > 80 && mem > 50) || net > 30").unwrap();
    // Just verify it parses without error for now
    println!("Parsed: {}", result.kind_name());
}

#[test]
fn test_not_condition() {
    let result = parse_trigger_expression("!(swap < 1)").unwrap();
    match result {
        TriggerCondition::Not(inner) => {
            if let TriggerCondition::Simple {
                metric,
                operator,
                value,
            } = inner.as_ref()
            {
                assert_eq!(*metric, "swap");
                assert_eq!(*operator, ComparisonOp::Less);
                assert_eq!(*value as f64 / 1000.0, 1.0);
            } else {
                panic!("Expected simple condition inside NOT");
            }
        }
        _ => panic!("Expected NOT condition"),
    }
}

#[test]
fn fractional_threshold_parses_to_thousandths() {
    let result = parse_trigger_expression("cpu >= 79.9").unwrap();
    match result {
        TriggerCondition::Simple {
            metric,
            operator,
            value,
        } => {
            assert_eq!(metric, "cpu");
            assert_eq!(operator, ComparisonOp::GreaterEq);
            assert_eq!(value, 79900);
        }
        _ => panic!("Expected simple condition"),
    }
}

#[test]
fn negative_threshold_parses() {
    let result = parse_trigger_expression("delta != -2.5").unwrap();
    match result {
        TriggerCondition::Simple { value, .. } => assert_eq!(value, -2500),
        _ => panic!("Expected simple condition"),
    }
}

#[test]
fn whitespace_is_free() {
    assert!(parse_trigger_expression("  cpu>80  ").is_ok());
    assert!(parse_trigger_expression("cpu\t>\n80").is_ok());
}

#[test]
fn adjacent_comparisons_are_an_implicit_and() {
    let result = parse_trigger_expression("cpu > 80 mem > 50").unwrap();
    assert!(matches!(result, TriggerCondition::And(..)));
}

#[test]
fn parse_error_cases() {
    assert_eq!(
        parse_trigger_expression("").unwrap_err(),
        ParseError::UnexpectedEnd
    );
    assert_eq!(
        parse_trigger_expression("cpu >").unwrap_err(),
        ParseError::ExpectedComparison
    );
    assert_eq!(
        parse_trigger_expression("cpu > abc").unwrap_err(),
        ParseError::ExpectedComparison
    );
    assert_eq!(
        parse_trigger_expression("cpu @ 80").unwrap_err(),
        ParseError::BadCharacter
    );
    assert_eq!(
        parse_trigger_expression("cpu > 80.").unwrap_err(),
        ParseError::BadNumber
    );
    assert_eq!(
        parse_trigger_expression("cpu > 80.1234").unwrap_err(),
        ParseError::BadNumber
    );
    assert_eq!(
        parse_trigger_expression("(cpu > 80").unwrap_err(),
        ParseError::ExpectedClosingParen
    );
    assert_eq!(
        parse_trigger_expression("cpu > 80 )").unwrap_err(),
        ParseError::TrailingInput
    );
    assert_eq!(
        parse_trigger_expression("> 80").unwrap_err(),
        ParseError::UnexpectedToken
    );
    assert_eq!(
        parse_trigger_expression("cpu = 80").unwrap_err(),
        ParseError::BadCharacter
    );
}

#[test]
fn custom_clause_takes_the_rest_verbatim() {
    match parse_trigger("custom /bin/true").unwrap() {
        ParsedTrigger::Custom(cmd) => assert_eq!(cmd, "/bin/true"),
        _ => panic!("Expected custom trigger"),
    }
    match parse_trigger("cpu > 99 && custom /usr/bin/check --fast").unwrap() {
        ParsedTrigger::Custom(cmd) => assert_eq!(cmd, "/usr/bin/check --fast"),
        _ => panic!("Expected custom trigger"),
    }
    match parse_trigger("CUSTOM echo hi").unwrap() {
        ParsedTrigger::Custom(cmd) => assert_eq!(cmd, "echo hi"),
        _ => panic!("Expected custom trigger"),
    }
    assert_eq!(
        parse_trigger("custom   ").unwrap_err(),
        ParseError::MissingCustomCommand
    );
    match parse_trigger("cpu > 80").unwrap() {
        ParsedTrigger::Expression(_) => {}
        _ => panic!("Expected expression trigger"),
    }
}

#[test]
fn cpu_trigger_accepts_only_the_plain_form() {
    assert_eq!(parse_cpu_trigger("cpu > 80").unwrap().threshold, 80000);
    assert_eq!(parse_cpu_trigger("CPU > 12.5").unwrap().threshold, 12500);
    assert_eq!(parse_cpu_trigger(" cpu  >  0 ").unwrap().threshold, 0);
    assert_eq!(
        parse_cpu_trigger("cpu > 150").unwrap_err(),
        ParseError::ThresholdOutOfRange
    );
    assert_eq!(
        parse_cpu_trigger("cpu > -1").unwrap_err(),
        ParseError::ThresholdOutOfRange
    );
    assert_eq!(
        parse_cpu_trigger("mem > 10").unwrap_err(),
        ParseError::InvalidCpuTrigger
    );
    assert_eq!(
        parse_cpu_trigger("cpu < 10").unwrap_err(),
        ParseError::InvalidCpuTrigger
    );
    assert_eq!(
        parse_cpu_trigger("cpu > 10 && mem > 5").unwrap_err(),
        ParseError::InvalidCpuTrigger
    );
    assert!(parse_cpu_trigger("cpu > oops").is_err());
}
