//! Evaluation of trigger conditions against live metric values.
//!
//! Metric values are fixed-point numbers in thousandths, keyed by name;
//! names compare case-insensitively and a name the map does not hold reads
//! as zero, so a comparison against an unknown metric is simply false
//! rather than an error.  A `custom` clause is not evaluated here: the
//! evaluator hands the command back and the caller turns its exit status
//! into the condition's truth value.

use vstd::prelude::*;

verus! {

use crate::lex::ComparisonOp;
use crate::lex::ParseError;
use crate::lex::seq_lower_eq;
use crate::lex::str_eq_lower;
use crate::trigger_parser::ParsedTrigger;
use crate::trigger_parser::SpecCondition;
use crate::trigger_parser::SpecParsedTrigger;
use crate::trigger_parser::TriggerCondition;
use crate::trigger_parser::cond_view;
use crate::trigger_parser::parse_trigger;
use crate::trigger_parser::spec_find_custom;
use crate::trigger_parser::spec_parse_trigger;

/// Live metric values: name to fixed-point value in thousandths.
pub struct MetricValues {
    entries: Vec<(String, i64)>,
}

impl View for MetricValues {
    type V = Seq<(Seq<char>, int)>;

    closed spec fn view(&self) -> Seq<(Seq<char>, int)> {
        Seq::new(
            self.entries@.len(),
            |i: int| (self.entries@[i].0@, self.entries@[i].1 as int),
        )
    }
}

/// The value of `name`: the first entry whose name matches up to ASCII
/// case, or zero when none does.
pub open spec fn spec_lookup(m: Seq<(Seq<char>, int)>, name: Seq<char>) -> int
    decreases m.len(),
{
    if m.len() == 0 {
        0
    } else if seq_lower_eq(m.first().0, name) {
        m.first().1
    } else {
        spec_lookup(m.drop_first(), name)
    }
}

impl MetricValues {
    pub fn new() -> (r: MetricValues)
        ensures
            r@ =~= Seq::<(Seq<char>, int)>::empty(),
    {
        MetricValues { entries: Vec::new() }
    }

    /// Add one metric value at the end; an earlier entry of the same name
    /// keeps precedence.
    pub fn push(&mut self, name: &str, value: i64)
        ensures
            final(self)@ =~= old(self)@.push((name@, value as int)),
    {
        self.entries.push((name.to_owned(), value));
    }

    /// Read one metric value; an unknown name reads as zero.
    pub fn get(&self, name: &str) -> (v: i64)
        ensures
            v as int == spec_lookup(self@, name@),
    {
        let n = self.entries.len();
        proof {
            assert(self@.skip(0) =~= self@);
        }
        for k in 0..n
            invariant
                n == self.entries@.len(),
                spec_lookup(self@, name@) == spec_lookup(self@.skip(k as int), name@),
        {
            let hit = str_eq_lower(self.entries[k].0.as_str(), name);
            proof {
                assert(self@.skip(k as int).first() == self@[k as int]);
            }
            if hit {
                return self.entries[k].1;
            }
            proof {
                assert(self@.skip(k as int).drop_first() =~= self@.skip(k + 1));
            }
        }
        proof {
            assert(self@.skip(n as int).len() == 0);
        }
        0
    }
}

/// One comparison on fixed-point values.
pub open spec fn spec_compare(op: ComparisonOp, lhs: int, rhs: int) -> bool {
    match op {
        ComparisonOp::Greater => lhs > rhs,
        ComparisonOp::Less => lhs < rhs,
        ComparisonOp::GreaterEq => lhs >= rhs,
        ComparisonOp::LessEq => lhs <= rhs,
        ComparisonOp::Equal => lhs == rhs,
        ComparisonOp::NotEqual => lhs != rhs,
    }
}

/// The truth value of a condition under metric values.
pub open spec fn spec_eval(c: SpecCondition, m: Seq<(Seq<char>, int)>) -> bool
    decreases c,
{
    match c {
        SpecCondition::Simple { metric, op, value } => spec_compare(
            op,
            spec_lookup(m, metric),
            value,
        ),
        SpecCondition::And(l, r) => spec_eval(*l, m) && spec_eval(*r, m),
        SpecCondition::Or(l, r) => spec_eval(*l, m) || spec_eval(*r, m),
        SpecCondition::Not(b) => !spec_eval(*b, m),
    }
}

/// Evaluate a parsed condition against the metric values.
pub fn eval_condition(c: &TriggerCondition, m: &MetricValues) -> (r: bool)
    ensures
        r == spec_eval(cond_view(*c), m@),
    decreases *c,
{
    match c {
        TriggerCondition::Simple { metric, operator, value } => {
            let mv = m.get(metric.as_str());
            match operator {
                ComparisonOp::Greater => mv > *value,
                ComparisonOp::Less => mv < *value,
                ComparisonOp::GreaterEq => mv >= *value,
                ComparisonOp::LessEq => mv <= *value,
                ComparisonOp::Equal => mv == *value,
                ComparisonOp::NotEqual => mv != *value,
            }
        },
        TriggerCondition::And(l, r) => {
            if eval_condition(&**l, m) {
                eval_condition(&**r, m)
            } else {
                false
            }
        },
        TriggerCondition::Or(l, r) => {
            if eval_condition(&**l, m) {
                true
            } else {
                eval_condition(&**r, m)
            }
        },
        TriggerCondition::Not(b) => !eval_condition(&**b, m),
    }
}

/// What evaluating an expression yields: a truth value, or a shell command
/// whose exit status the caller must turn into the truth value.
#[derive(Debug)]
pub enum EvalOutcome {
    Value(bool),
    RunCommand(String),
}

pub open spec fn outcome_view(o: EvalOutcome) -> SpecEvalOutcome {
    match o {
        EvalOutcome::Value(b) => SpecEvalOutcome::Value(b),
        EvalOutcome::RunCommand(c) => SpecEvalOutcome::RunCommand(c@),
    }
}

pub enum SpecEvalOutcome {
    Value(bool),
    RunCommand(Seq<char>),
}

pub open spec fn eval_res_view(r: Result<EvalOutcome, ParseError>) -> Result<
    SpecEvalOutcome,
    ParseError,
> {
    match r {
        Ok(o) => Ok(outcome_view(o)),
        Err(e) => Err(e),
    }
}

/// The outcome of an expression under metric values: the command of a
/// `custom` clause, untouched by the metrics; otherwise the parsed
/// condition's truth value.
pub open spec fn spec_evaluate(s: Seq<char>, m: Seq<(Seq<char>, int)>) -> Result<
    SpecEvalOutcome,
    ParseError,
> {
    match spec_parse_trigger(s) {
        Err(e) => Err(e),
        Ok(p) => match p {
            SpecParsedTrigger::Custom(cmd) => Ok(SpecEvalOutcome::RunCommand(cmd)),
            SpecParsedTrigger::Expression(c) => Ok(SpecEvalOutcome::Value(spec_eval(c, m))),
        },
    }
}

/// Evaluate a trigger expression against the metric values.
pub fn evaluate(expression: &str, metrics: &MetricValues) -> (r: Result<EvalOutcome, ParseError>)
    ensures
        eval_res_view(r) == spec_evaluate(expression@, metrics@),
{
    match parse_trigger(expression) {
        Err(e) => Err(e),
        Ok(ParsedTrigger::Custom(cmd)) => Ok(EvalOutcome::RunCommand(cmd)),
        Ok(ParsedTrigger::Expression(c)) => Ok(EvalOutcome::Value(eval_condition(&c, metrics))),
    }
}

/// A `custom` clause short-circuits: when the word `custom` occurs in the
/// expression, the outcome is the same whatever the metric values say, and
/// whatever other clauses the expression holds.
pub proof fn lemma_custom_ignores_metrics(
    s: Seq<char>,
    m1: Seq<(Seq<char>, int)>,
    m2: Seq<(Seq<char>, int)>,
)
    requires
        spec_find_custom(s) is Some,
    ensures
        spec_evaluate(s, m1) == spec_evaluate(s, m2),
{
}

} // verus!
