//! Parser for trigger condition expressions.
//!
//! The grammar, in order of loosest binding:
//!
//! ```text
//! expression  :=  or
//! or          :=  and ( "||" or )?
//! and         :=  unary ( "&&" and )?  |  unary and
//! unary       :=  "!" unary  |  "(" or ")"  |  comparison
//! comparison  :=  metric operator number
//! operator    :=  ">" | "<" | ">=" | "<=" | "==" | "!="
//! ```
//!
//! Two clauses written next to each other with no connective are joined by
//! an implicit AND, so a plain sequence of comparisons is their
//! conjunction.  The binary connectives associate to the right.  Metric
//! names compare case-insensitively and whitespace between tokens is free.
//!
//! One escape hatch sits outside the grammar: when a whitespace-delimited
//! word `custom` (in any case) occurs anywhere in the expression, the whole
//! remainder after that word is an operator-supplied shell command, taken
//! verbatim, and the rest of the expression is ignored.  The library never
//! runs the command; it hands it back to the caller, whose exit status then
//! decides the condition.

use vstd::prelude::*;

verus! {

use vstd::string::StrSliceExecFns;
use crate::lex::ComparisonOp;
use crate::lex::ParseError;
use crate::lex::SpecToken;
use crate::lex::Token;
use crate::lex::chars_of;
use crate::lex::is_ws_char;
use crate::lex::lower_u32;
use crate::lex::seq_lower_eq;
use crate::lex::spec_tokenize;
use crate::lex::str_eq_lower;
use crate::lex::token_view;
use crate::lex::tokenize;
use crate::lex::tokenize_res_view;
use crate::lex::tokens_view;

/// A parsed trigger condition.
#[derive(Debug)]
pub enum TriggerCondition {
    /// `metric operator number`, the number in thousandths.
    Simple { metric: String, operator: ComparisonOp, value: i64 },
    And(Box<TriggerCondition>, Box<TriggerCondition>),
    Or(Box<TriggerCondition>, Box<TriggerCondition>),
    Not(Box<TriggerCondition>),
}

/// The mathematical shadow of a condition.
pub enum SpecCondition {
    Simple { metric: Seq<char>, op: ComparisonOp, value: int },
    And(Box<SpecCondition>, Box<SpecCondition>),
    Or(Box<SpecCondition>, Box<SpecCondition>),
    Not(Box<SpecCondition>),
}

pub open spec fn cond_view(c: TriggerCondition) -> SpecCondition
    decreases c,
{
    match c {
        TriggerCondition::Simple { metric, operator, value } => SpecCondition::Simple {
            metric: metric@,
            op: operator,
            value: value as int,
        },
        TriggerCondition::And(l, r) => SpecCondition::And(
            Box::new(cond_view(*l)),
            Box::new(cond_view(*r)),
        ),
        TriggerCondition::Or(l, r) => SpecCondition::Or(
            Box::new(cond_view(*l)),
            Box::new(cond_view(*r)),
        ),
        TriggerCondition::Not(b) => SpecCondition::Not(Box::new(cond_view(*b))),
    }
}

/// Whether a token can open a clause: a metric name, a negation, or an
/// opening parenthesis.  Two adjacent clauses are joined by an implicit
/// AND.
pub open spec fn starts_clause(t: SpecToken) -> bool {
    match t {
        SpecToken::Ident(_) => true,
        SpecToken::Bang => true,
        SpecToken::LParen => true,
        _ => false,
    }
}

/// Parse one unary clause at token position `i`: a negation, a
/// parenthesized expression, or a comparison.  Returns the clause and the
/// position after it.
pub open spec fn spec_parse_unary(toks: Seq<SpecToken>, i: int) -> Result<
    (SpecCondition, int),
    ParseError,
>
    decreases toks.len() - i, 0int,
    when 0 <= i
{
    if i >= toks.len() {
        Err(ParseError::UnexpectedEnd)
    } else {
        match toks[i] {
            SpecToken::Bang => match spec_parse_unary(toks, i + 1) {
                Ok(cj) => Ok((SpecCondition::Not(Box::new(cj.0)), cj.1)),
                Err(e) => Err(e),
            },
            SpecToken::LParen => match spec_parse_or(toks, i + 1) {
                Ok(cj) => if cj.1 < toks.len() && toks[cj.1] == SpecToken::RParen {
                    Ok((cj.0, cj.1 + 1))
                } else {
                    Err(ParseError::ExpectedClosingParen)
                },
                Err(e) => Err(e),
            },
            SpecToken::Ident(name) => if i + 2 < toks.len() {
                match (toks[i + 1], toks[i + 2]) {
                    (SpecToken::Op(op), SpecToken::Number(v)) => Ok(
                        (SpecCondition::Simple { metric: name, op, value: v }, i + 3),
                    ),
                    _ => Err(ParseError::ExpectedComparison),
                }
            } else {
                Err(ParseError::ExpectedComparison)
            },
            _ => Err(ParseError::UnexpectedToken),
        }
    }
}

/// Parse a conjunction at token position `i`: unary clauses joined by `&&`
/// or by adjacency, associated to the right.
pub open spec fn spec_parse_and(toks: Seq<SpecToken>, i: int) -> Result<
    (SpecCondition, int),
    ParseError,
>
    decreases toks.len() - i, 1int,
    when 0 <= i
{
    match spec_parse_unary(toks, i) {
        Err(e) => Err(e),
        Ok(lj) => {
            let j = lj.1;
            if j <= i || j > toks.len() {
                Err(ParseError::UnexpectedToken)
            } else if j < toks.len() && toks[j] == SpecToken::AndAnd {
                match spec_parse_and(toks, j + 1) {
                    Ok(rk) => Ok((SpecCondition::And(Box::new(lj.0), Box::new(rk.0)), rk.1)),
                    Err(e) => Err(e),
                }
            } else if j < toks.len() && starts_clause(toks[j]) {
                match spec_parse_and(toks, j) {
                    Ok(rk) => Ok((SpecCondition::And(Box::new(lj.0), Box::new(rk.0)), rk.1)),
                    Err(e) => Err(e),
                }
            } else {
                Ok((lj.0, j))
            }
        },
    }
}

/// Parse a disjunction at token position `i`: conjunctions joined by `||`,
/// associated to the right.
pub open spec fn spec_parse_or(toks: Seq<SpecToken>, i: int) -> Result<
    (SpecCondition, int),
    ParseError,
>
    decreases toks.len() - i, 2int,
    when 0 <= i
{
    match spec_parse_and(toks, i) {
        Err(e) => Err(e),
        Ok(lj) => {
            let j = lj.1;
            if j <= i || j > toks.len() {
                Err(ParseError::UnexpectedToken)
            } else if j < toks.len() && toks[j] == SpecToken::OrOr {
                match spec_parse_or(toks, j + 1) {
                    Ok(rk) => Ok((SpecCondition::Or(Box::new(lj.0), Box::new(rk.0)), rk.1)),
                    Err(e) => Err(e),
                }
            } else {
                Ok((lj.0, j))
            }
        },
    }
}

/// A successfully parsed clause consumes at least one token and stays
/// inside the token list.
pub proof fn lemma_parse_unary_consumes(toks: Seq<SpecToken>, i: int)
    requires
        0 <= i,
    ensures
        spec_parse_unary(toks, i) matches Ok(cj) ==> i < cj.1 <= toks.len(),
    decreases toks.len() - i, 0int,
{
    if i < toks.len() {
        match toks[i] {
            SpecToken::Bang => lemma_parse_unary_consumes(toks, i + 1),
            SpecToken::LParen => lemma_parse_or_consumes(toks, i + 1),
            _ => {},
        }
    }
}

pub proof fn lemma_parse_and_consumes(toks: Seq<SpecToken>, i: int)
    requires
        0 <= i,
    ensures
        spec_parse_and(toks, i) matches Ok(cj) ==> i < cj.1 <= toks.len(),
    decreases toks.len() - i, 1int,
{
    lemma_parse_unary_consumes(toks, i);
    match spec_parse_unary(toks, i) {
        Ok(lj) => {
            let j = lj.1;
            if j <= i || j > toks.len() {
            } else if j < toks.len() && toks[j] == SpecToken::AndAnd {
                lemma_parse_and_consumes(toks, j + 1);
            } else if j < toks.len() && starts_clause(toks[j]) {
                lemma_parse_and_consumes(toks, j);
            }
        },
        Err(_) => {},
    }
}

pub proof fn lemma_parse_or_consumes(toks: Seq<SpecToken>, i: int)
    requires
        0 <= i,
    ensures
        spec_parse_or(toks, i) matches Ok(cj) ==> i < cj.1 <= toks.len(),
    decreases toks.len() - i, 2int,
{
    lemma_parse_and_consumes(toks, i);
    match spec_parse_and(toks, i) {
        Ok(lj) => {
            let j = lj.1;
            if j <= i || j > toks.len() {
            } else if j < toks.len() && toks[j] == SpecToken::OrOr {
                lemma_parse_or_consumes(toks, j + 1);
            }
        },
        Err(_) => {},
    }
}

/// A whole token list parsed as one expression: every token must belong to
/// it.
pub open spec fn spec_parse_tokens(toks: Seq<SpecToken>) -> Result<SpecCondition, ParseError> {
    match spec_parse_or(toks, 0) {
        Err(e) => Err(e),
        Ok(cj) => if cj.1 == toks.len() {
            Ok(cj.0)
        } else {
            Err(ParseError::TrailingInput)
        },
    }
}

/// A whole character string parsed as one expression.
pub open spec fn spec_parse_expression(s: Seq<char>) -> Result<SpecCondition, ParseError> {
    match spec_tokenize(s, 0) {
        Err(e) => Err(e),
        Ok(toks) => spec_parse_tokens(toks),
    }
}

pub open spec fn parse_res_view(r: Result<(TriggerCondition, usize), ParseError>) -> Result<
    (SpecCondition, int),
    ParseError,
> {
    match r {
        Ok(cj) => Ok((cond_view(cj.0), cj.1 as int)),
        Err(e) => Err(e),
    }
}

pub open spec fn cond_res_view(r: Result<TriggerCondition, ParseError>) -> Result<
    SpecCondition,
    ParseError,
> {
    match r {
        Ok(c) => Ok(cond_view(c)),
        Err(e) => Err(e),
    }
}

fn is_andand(t: &Token) -> (b: bool)
    ensures
        b == (token_view(*t) == SpecToken::AndAnd),
{
    matches!(t, Token::AndAnd)
}

fn is_oror(t: &Token) -> (b: bool)
    ensures
        b == (token_view(*t) == SpecToken::OrOr),
{
    matches!(t, Token::OrOr)
}

fn opens_clause(t: &Token) -> (b: bool)
    ensures
        b == starts_clause(token_view(*t)),
{
    matches!(t, Token::Ident(_) | Token::Bang | Token::LParen)
}

fn parse_unary(toks: &Vec<Token>, i: usize) -> (r: Result<(TriggerCondition, usize), ParseError>)
    requires
        i <= toks@.len(),
    ensures
        parse_res_view(r) == spec_parse_unary(tokens_view(toks@), i as int),
    decreases toks@.len() - i, 0int,
{
    let ghost tv = tokens_view(toks@);
    let n = toks.len();
    if i >= n {
        return Err(ParseError::UnexpectedEnd);
    }
    proof {
        assert(tv[i as int] == token_view(toks@[i as int]));
    }
    match &toks[i] {
        Token::Bang => match parse_unary(toks, i + 1) {
            Ok(cj) => Ok((TriggerCondition::Not(Box::new(cj.0)), cj.1)),
            Err(e) => Err(e),
        },
        Token::LParen => match parse_or(toks, i + 1) {
            Ok(cj) => {
                let j = cj.1;
                proof {
                    lemma_parse_or_consumes(tv, i + 1);
                    if j < toks@.len() {
                        assert(tv[j as int] == token_view(toks@[j as int]));
                    }
                }
                if j < n {
                    match &toks[j] {
                        Token::RParen => Ok((cj.0, j + 1)),
                        _ => Err(ParseError::ExpectedClosingParen),
                    }
                } else {
                    Err(ParseError::ExpectedClosingParen)
                }
            },
            Err(e) => Err(e),
        },
        Token::Ident(name) => {
            if n - i > 2 {
                proof {
                    assert(tv[i + 1] == token_view(toks@[i + 1]));
                    assert(tv[i + 2] == token_view(toks@[i + 2]));
                }
                match (&toks[i + 1], &toks[i + 2]) {
                    (Token::Op(op), Token::Number(v)) => Ok(
                        (
                            TriggerCondition::Simple {
                                metric: name.clone(),
                                operator: *op,
                                value: *v,
                            },
                            i + 3,
                        ),
                    ),
                    _ => Err(ParseError::ExpectedComparison),
                }
            } else {
                Err(ParseError::ExpectedComparison)
            }
        },
        _ => Err(ParseError::UnexpectedToken),
    }
}

fn parse_and(toks: &Vec<Token>, i: usize) -> (r: Result<(TriggerCondition, usize), ParseError>)
    requires
        i <= toks@.len(),
    ensures
        parse_res_view(r) == spec_parse_and(tokens_view(toks@), i as int),
    decreases toks@.len() - i, 1int,
{
    let ghost tv = tokens_view(toks@);
    let n = toks.len();
    match parse_unary(toks, i) {
        Err(e) => Err(e),
        Ok(lj) => {
            let l = lj.0;
            let j = lj.1;
            proof {
                lemma_parse_unary_consumes(tv, i as int);
                if j < toks@.len() {
                    assert(tv[j as int] == token_view(toks@[j as int]));
                }
            }
            if j < n && is_andand(&toks[j]) {
                match parse_and(toks, j + 1) {
                    Ok(rk) => Ok((TriggerCondition::And(Box::new(l), Box::new(rk.0)), rk.1)),
                    Err(e) => Err(e),
                }
            } else if j < n && opens_clause(&toks[j]) {
                match parse_and(toks, j) {
                    Ok(rk) => Ok((TriggerCondition::And(Box::new(l), Box::new(rk.0)), rk.1)),
                    Err(e) => Err(e),
                }
            } else {
                Ok((l, j))
            }
        },
    }
}

fn parse_or(toks: &Vec<Token>, i: usize) -> (r: Result<(TriggerCondition, usize), ParseError>)
    requires
        i <= toks@.len(),
    ensures
        parse_res_view(r) == spec_parse_or(tokens_view(toks@), i as int),
    decreases toks@.len() - i, 2int,
{
    let ghost tv = tokens_view(toks@);
    let n = toks.len();
    match parse_and(toks, i) {
        Err(e) => Err(e),
        Ok(lj) => {
            let l = lj.0;
            let j = lj.1;
            proof {
                lemma_parse_and_consumes(tv, i as int);
                if j < toks@.len() {
                    assert(tv[j as int] == token_view(toks@[j as int]));
                }
            }
            if j < n && is_oror(&toks[j]) {
                match parse_or(toks, j + 1) {
                    Ok(rk) => Ok((TriggerCondition::Or(Box::new(l), Box::new(rk.0)), rk.1)),
                    Err(e) => Err(e),
                }
            } else {
                Ok((l, j))
            }
        },
    }
}

/// Parse a whole expression of the grammar.  The result is exactly the
/// parse that the specification functions describe, and every parse error
/// comes out as stated there.
pub fn parse_trigger_expression(expression: &str) -> (r: Result<TriggerCondition, ParseError>)
    ensures
        cond_res_view(r) == spec_parse_expression(expression@),
{
    match tokenize(expression) {
        Err(e) => Err(e),
        Ok(toks) => match parse_or(&toks, 0) {
            Err(e) => Err(e),
            Ok(cj) => {
                if cj.1 == toks.len() {
                    Ok(cj.0)
                } else {
                    Err(ParseError::TrailingInput)
                }
            },
        },
    }
}

impl TriggerCondition {
    /// The name of the outermost connective, for display.
    pub fn kind_name(&self) -> (r: String)
        ensures
            r@ == spec_kind_name(cond_view(*self)),
    {
        match self {
            TriggerCondition::Simple { .. } => "comparison".to_owned(),
            TriggerCondition::And(..) => "and".to_owned(),
            TriggerCondition::Or(..) => "or".to_owned(),
            TriggerCondition::Not(..) => "not".to_owned(),
        }
    }
}

pub open spec fn spec_kind_name(c: SpecCondition) -> Seq<char> {
    match c {
        SpecCondition::Simple { .. } => "comparison"@,
        SpecCondition::And(..) => "and"@,
        SpecCondition::Or(..) => "or"@,
        SpecCondition::Not(..) => "not"@,
    }
}

/// The word `custom` (in any case) stands at position `i`, delimited by
/// whitespace or the ends of the expression.
pub open spec fn spec_custom_at(s: Seq<char>, i: int) -> bool {
    &&& 0 <= i
    &&& i + 6 <= s.len()
    &&& lower_u32(s[i]) == 99
    &&& lower_u32(s[i + 1]) == 117
    &&& lower_u32(s[i + 2]) == 115
    &&& lower_u32(s[i + 3]) == 116
    &&& lower_u32(s[i + 4]) == 111
    &&& lower_u32(s[i + 5]) == 109
    &&& (i == 0 || is_ws_char(s[i - 1]))
    &&& (i + 6 == s.len() || is_ws_char(s[i + 6]))
}

/// The first occurrence of the word `custom` at or after position `i`.
pub open spec fn spec_find_custom_from(s: Seq<char>, i: int) -> Option<int>
    decreases s.len() - i,
    when 0 <= i
{
    if i + 6 > s.len() {
        None
    } else if spec_custom_at(s, i) {
        Some(i)
    } else {
        spec_find_custom_from(s, i + 1)
    }
}

pub open spec fn spec_find_custom(s: Seq<char>) -> Option<int> {
    spec_find_custom_from(s, 0)
}

pub proof fn lemma_find_custom_some(s: Seq<char>, i0: int)
    requires
        0 <= i0,
    ensures
        spec_find_custom_from(s, i0) matches Some(i) ==> i0 <= i && spec_custom_at(s, i),
    decreases s.len() - i0,
{
    if i0 + 6 <= s.len() && !spec_custom_at(s, i0) {
        lemma_find_custom_some(s, i0 + 1);
    }
}

/// The first position in `[i, hi)` that is not whitespace, or `hi`.
pub open spec fn skip_ws_until(s: Seq<char>, i: int, hi: int) -> int
    decreases hi - i,
{
    if i < hi && is_ws_char(s[i]) {
        skip_ws_until(s, i + 1, hi)
    } else {
        i
    }
}

/// The position after the last non-whitespace character in `[lo, j)`, or
/// `lo`.
pub open spec fn trim_end_from(s: Seq<char>, j: int, lo: int) -> int
    decreases j - lo,
{
    if j > lo && is_ws_char(s[j - 1]) {
        trim_end_from(s, j - 1, lo)
    } else {
        j
    }
}

pub proof fn lemma_skip_ws_until(s: Seq<char>, i: int, hi: int)
    requires
        0 <= i <= hi,
    ensures
        i <= skip_ws_until(s, i, hi) <= hi,
    decreases hi - i,
{
    if i < hi && is_ws_char(s[i]) {
        lemma_skip_ws_until(s, i + 1, hi);
    }
}

pub proof fn lemma_trim_end_from(s: Seq<char>, j: int, lo: int)
    requires
        0 <= lo <= j,
    ensures
        lo <= trim_end_from(s, j, lo) <= j,
    decreases j - lo,
{
    if j > lo && is_ws_char(s[j - 1]) {
        lemma_trim_end_from(s, j - 1, lo);
    }
}

/// A trigger specification: either a condition of the grammar, or an
/// operator-supplied shell command from a `custom` clause.
#[derive(Debug)]
pub enum ParsedTrigger {
    Expression(TriggerCondition),
    Custom(String),
}

pub enum SpecParsedTrigger {
    Expression(SpecCondition),
    Custom(Seq<char>),
}

pub open spec fn parsed_view(p: ParsedTrigger) -> SpecParsedTrigger {
    match p {
        ParsedTrigger::Expression(c) => SpecParsedTrigger::Expression(cond_view(c)),
        ParsedTrigger::Custom(s) => SpecParsedTrigger::Custom(s@),
    }
}

pub open spec fn parsed_res_view(r: Result<ParsedTrigger, ParseError>) -> Result<
    SpecParsedTrigger,
    ParseError,
> {
    match r {
        Ok(p) => Ok(parsed_view(p)),
        Err(e) => Err(e),
    }
}

/// A whole trigger specification: a `custom` clause anywhere short-circuits
/// the grammar, its command being everything after the word, trimmed;
/// otherwise the expression is parsed by the grammar.
pub open spec fn spec_parse_trigger(s: Seq<char>) -> Result<SpecParsedTrigger, ParseError> {
    match spec_find_custom(s) {
        Some(i) => {
            let a = skip_ws_until(s, i + 6, s.len() as int);
            let b = trim_end_from(s, s.len() as int, i + 6);
            if a >= b {
                Err(ParseError::MissingCustomCommand)
            } else {
                Ok(SpecParsedTrigger::Custom(s.subrange(a, b)))
            }
        },
        None => match spec_parse_expression(s) {
            Ok(c) => Ok(SpecParsedTrigger::Expression(c)),
            Err(e) => Err(e),
        },
    }
}

fn custom_at(cs: &Vec<char>, i: usize) -> (b: bool)
    requires
        i <= cs@.len(),
        cs@.len() - i >= 6,
    ensures
        b == spec_custom_at(cs@, i as int),
{
    let n = cs.len();
    proof {
        assert(i + 6 <= n);
    }
    let word = crate::lex::ch_lower(cs[i]) == 99 && crate::lex::ch_lower(cs[i + 1]) == 117
        && crate::lex::ch_lower(cs[i + 2]) == 115 && crate::lex::ch_lower(cs[i + 3]) == 116
        && crate::lex::ch_lower(cs[i + 4]) == 111 && crate::lex::ch_lower(cs[i + 5]) == 109;
    let left = i == 0 || crate::lex::ch_ws(cs[i - 1]);
    let right = i + 6 == n || crate::lex::ch_ws(cs[i + 6]);
    word && left && right
}

fn find_custom(cs: &Vec<char>) -> (r: Option<usize>)
    ensures
        match r {
            Some(i) => spec_find_custom(cs@) == Some(i as int),
            None => spec_find_custom(cs@) is None,
        },
{
    let n = cs.len();
    let mut i: usize = 0;
    while n - i >= 6
        invariant
            0 <= i <= n,
            n == cs@.len(),
            spec_find_custom(cs@) == spec_find_custom_from(cs@, i as int),
        decreases n - i,
    {
        if custom_at(cs, i) {
            proof {
                assert(spec_find_custom_from(cs@, i as int) == Some(i as int));
            }
            return Some(i);
        }
        proof {
            assert(spec_find_custom_from(cs@, i as int) == spec_find_custom_from(cs@, i + 1));
        }
        i = i + 1;
    }
    proof {
        assert(spec_find_custom_from(cs@, i as int) is None);
    }
    None
}

/// Parse a whole trigger specification, `custom` escape hatch included.
pub fn parse_trigger(expression: &str) -> (r: Result<ParsedTrigger, ParseError>)
    ensures
        parsed_res_view(r) == spec_parse_trigger(expression@),
{
    let cs = chars_of(expression);
    let n = cs.len();
    match find_custom(&cs) {
        Some(i) => {
            proof {
                lemma_find_custom_some(cs@, 0);
                lemma_skip_ws_until(cs@, i + 6, n as int);
                lemma_trim_end_from(cs@, n as int, i + 6);
            }
            let mut a = i + 6;
            while a < n && crate::lex::ch_ws(cs[a])
                invariant
                    i + 6 <= a <= n,
                    n == cs@.len(),
                    skip_ws_until(cs@, i + 6, n as int) == skip_ws_until(cs@, a as int, n as int),
                decreases n - a,
            {
                proof {
                    assert(skip_ws_until(cs@, a as int, n as int) == skip_ws_until(
                        cs@,
                        a + 1,
                        n as int,
                    ));
                }
                a = a + 1;
            }
            proof {
                assert(skip_ws_until(cs@, a as int, n as int) == a as int);
            }
            let mut b = n;
            while b > i + 6 && crate::lex::ch_ws(cs[b - 1])
                invariant
                    i + 6 <= b <= n,
                    n == cs@.len(),
                    trim_end_from(cs@, n as int, i + 6) == trim_end_from(cs@, b as int, i + 6),
                decreases b,
            {
                proof {
                    assert(trim_end_from(cs@, b as int, i + 6) == trim_end_from(
                        cs@,
                        b - 1,
                        i + 6,
                    ));
                }
                b = b - 1;
            }
            proof {
                assert(trim_end_from(cs@, b as int, i + 6) == b as int);
            }
            if a >= b {
                Err(ParseError::MissingCustomCommand)
            } else {
                Ok(ParsedTrigger::Custom(expression.substring_char(a, b).to_owned()))
            }
        },
        None => match parse_trigger_expression(expression) {
            Ok(c) => Ok(ParsedTrigger::Expression(c)),
            Err(e) => Err(e),
        },
    }
}

/// A plain CPU busy-percent threshold: fire when the CPU is busier than
/// this many thousandths of a percent.
#[derive(Clone, Copy, Debug, PartialEq, Eq, Structural)]
pub struct CpuTrigger {
    pub threshold: i64,
}

pub open spec fn cpu_res_view(r: Result<CpuTrigger, ParseError>) -> Result<int, ParseError> {
    match r {
        Ok(t) => Ok(t.threshold as int),
        Err(e) => Err(e),
    }
}

/// The one accepted form: a single comparison `cpu > <percent>` with the
/// threshold between zero and one hundred percent.
pub open spec fn spec_parse_cpu_trigger(s: Seq<char>) -> Result<int, ParseError> {
    match spec_parse_expression(s) {
        Err(e) => Err(e),
        Ok(c) => match c {
            SpecCondition::Simple { metric, op, value } => if seq_lower_eq(metric, "cpu"@) && op
                == ComparisonOp::Greater {
                if 0 <= value && value <= 100000 {
                    Ok(value)
                } else {
                    Err(ParseError::ThresholdOutOfRange)
                }
            } else {
                Err(ParseError::InvalidCpuTrigger)
            },
            _ => Err(ParseError::InvalidCpuTrigger),
        },
    }
}

/// Parse a trigger of the fixed form `cpu > <percent>`.
pub fn parse_cpu_trigger(expression: &str) -> (r: Result<CpuTrigger, ParseError>)
    ensures
        cpu_res_view(r) == spec_parse_cpu_trigger(expression@),
{
    match parse_trigger_expression(expression) {
        Err(e) => Err(e),
        Ok(c) => match c {
            TriggerCondition::Simple { metric, operator, value } => {
                let is_cpu = str_eq_lower(metric.as_str(), "cpu");
                let is_gt = matches!(operator, ComparisonOp::Greater);
                if is_cpu && is_gt {
                    if 0 <= value && value <= 100000 {
                        Ok(CpuTrigger { threshold: value })
                    } else {
                        Err(ParseError::ThresholdOutOfRange)
                    }
                } else {
                    Err(ParseError::InvalidCpuTrigger)
                }
            },
            _ => Err(ParseError::InvalidCpuTrigger),
        },
    }
}

} // verus!
