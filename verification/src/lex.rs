//! Tokens of the trigger expression language.
//!
//! An expression is a sequence of metric names, comparison operators,
//! fixed-point numbers, boolean connectives and parentheses, separated by
//! optional whitespace.  Numbers are written in decimal with at most
//! fifteen integer digits and an optional fraction of one to three digits;
//! they are held in thousandths, the fixed-point scale the whole library
//! uses.  Any other character, a lone `=`, `&` or `|`, or a malformed
//! number refuses the whole expression.

use vstd::prelude::*;

verus! {

use vstd::string::StrSliceExecFns;

/// Why an expression was refused.
#[derive(Clone, Copy, Debug, PartialEq, Eq, Structural)]
pub enum ParseError {
    /// A character outside the expression language.
    BadCharacter,
    /// A malformed or oversized numeric literal.
    BadNumber,
    /// The expression ended where a clause was still expected.
    UnexpectedEnd,
    /// A token that cannot start a clause.
    UnexpectedToken,
    /// A metric name not followed by an operator and a number.
    ExpectedComparison,
    /// An opened parenthesis that is never closed.
    ExpectedClosingParen,
    /// Leftover tokens after a complete expression.
    TrailingInput,
    /// The `custom` keyword with no command after it.
    MissingCustomCommand,
    /// A recognized expression that is not a plain CPU threshold.
    InvalidCpuTrigger,
    /// A CPU threshold outside the zero to one hundred percent range.
    ThresholdOutOfRange,
}

/// The comparison operators of a clause.
#[derive(Clone, Copy, Debug, PartialEq, Eq, Structural)]
pub enum ComparisonOp {
    Greater,
    Less,
    GreaterEq,
    LessEq,
    Equal,
    NotEqual,
}

/// One token of an expression.
#[derive(Debug)]
pub enum Token {
    /// A metric name: letters, underscores and digits, as written.
    Ident(String),
    /// A number in thousandths.
    Number(i64),
    /// A comparison operator.
    Op(ComparisonOp),
    /// `&&`
    AndAnd,
    /// `||`
    OrOr,
    /// `!`
    Bang,
    /// `(`
    LParen,
    /// `)`
    RParen,
}

/// The mathematical shadow of a token: the name as a character sequence,
/// the number as an unbounded integer.
pub enum SpecToken {
    Ident(Seq<char>),
    Number(int),
    Op(ComparisonOp),
    AndAnd,
    OrOr,
    Bang,
    LParen,
    RParen,
}

pub open spec fn token_view(t: Token) -> SpecToken {
    match t {
        Token::Ident(s) => SpecToken::Ident(s@),
        Token::Number(v) => SpecToken::Number(v as int),
        Token::Op(o) => SpecToken::Op(o),
        Token::AndAnd => SpecToken::AndAnd,
        Token::OrOr => SpecToken::OrOr,
        Token::Bang => SpecToken::Bang,
        Token::LParen => SpecToken::LParen,
        Token::RParen => SpecToken::RParen,
    }
}

pub open spec fn tokens_view(ts: Seq<Token>) -> Seq<SpecToken> {
    ts.map_values(|t: Token| token_view(t))
}

/// Space, tab, newline or carriage return.
pub open spec fn is_ws_char(c: char) -> bool {
    c as u32 == 32 || c as u32 == 9 || c as u32 == 10 || c as u32 == 13
}

/// An ASCII letter or an underscore: what a metric name starts with.
pub open spec fn is_alpha_char(c: char) -> bool {
    (97 <= c as u32 && c as u32 <= 122) || (65 <= c as u32 && c as u32 <= 90) || c as u32 == 95
}

/// An ASCII decimal digit.
pub open spec fn is_digit_char(c: char) -> bool {
    48 <= c as u32 && c as u32 <= 57
}

/// What a metric name continues with.
pub open spec fn is_ident_char(c: char) -> bool {
    is_alpha_char(c) || is_digit_char(c)
}

/// The code point with an upper-case ASCII letter folded to lower case.
pub open spec fn lower_u32(c: char) -> u32 {
    if 65 <= c as u32 && c as u32 <= 90 {
        (c as u32 + 32) as u32
    } else {
        c as u32
    }
}

/// Equality of two character sequences up to ASCII case.
pub open spec fn seq_lower_eq(a: Seq<char>, b: Seq<char>) -> bool {
    a.len() == b.len() && forall|k: int| 0 <= k < a.len() ==> lower_u32(a[k]) == lower_u32(b[k])
}

/// Whitespace test on one character.
pub fn ch_ws(c: char) -> (b: bool)
    ensures
        b == is_ws_char(c),
{
    let u = c as u32;
    u == 32 || u == 9 || u == 10 || u == 13
}

/// The code point of a character with ASCII upper case folded away.
pub fn ch_lower(c: char) -> (u: u32)
    ensures
        u == lower_u32(c),
{
    let v = c as u32;
    if 65 <= v && v <= 90 {
        v + 32
    } else {
        v
    }
}

fn ch_alpha(c: char) -> (b: bool)
    ensures
        b == is_alpha_char(c),
{
    let u = c as u32;
    (97 <= u && u <= 122) || (65 <= u && u <= 90) || u == 95
}

fn ch_digit(c: char) -> (b: bool)
    ensures
        b == is_digit_char(c),
{
    let u = c as u32;
    48 <= u && u <= 57
}

fn ch_ident(c: char) -> (b: bool)
    ensures
        b == is_ident_char(c),
{
    ch_alpha(c) || ch_digit(c)
}

/// Case-insensitive ASCII comparison of two strings.
pub fn str_eq_lower(a: &str, b: &str) -> (r: bool)
    ensures
        r == seq_lower_eq(a@, b@),
{
    let an = a.unicode_len();
    let bn = b.unicode_len();
    if an != bn {
        return false;
    }
    for i in 0..an
        invariant
            an == a@.len(),
            an == b@.len(),
            forall|k: int| 0 <= k < i ==> lower_u32(a@[k]) == lower_u32(b@[k]),
    {
        let ca = a.get_char(i) as u32;
        let cb = b.get_char(i) as u32;
        let la = if 65 <= ca && ca <= 90 {
            ca + 32
        } else {
            ca
        };
        let lb = if 65 <= cb && cb <= 90 {
            cb + 32
        } else {
            cb
        };
        if la != lb {
            return false;
        }
    }
    true
}

/// The characters of a string, for direct indexing.
pub fn chars_of(s: &str) -> (r: Vec<char>)
    ensures
        r@ == s@,
{
    let n = s.unicode_len();
    let mut out: Vec<char> = Vec::new();
    for i in 0..n
        invariant
            n == s@.len(),
            out@ =~= s@.subrange(0, i as int),
    {
        out.push(s.get_char(i));
    }
    proof {
        assert(s@.subrange(0, n as int) =~= s@);
    }
    out
}

/// The first position at or after `i` that does not continue a metric name.
pub open spec fn ident_end(s: Seq<char>, i: int) -> int
    decreases s.len() - i,
    when 0 <= i <= s.len()
{
    if i < s.len() && is_ident_char(s[i]) {
        ident_end(s, i + 1)
    } else {
        i
    }
}

/// The first position at or after `i` that is not a digit.
pub open spec fn digit_end(s: Seq<char>, i: int) -> int
    decreases s.len() - i,
    when 0 <= i <= s.len()
{
    if i < s.len() && is_digit_char(s[i]) {
        digit_end(s, i + 1)
    } else {
        i
    }
}

pub proof fn lemma_ident_end(s: Seq<char>, i: int)
    requires
        0 <= i <= s.len(),
    ensures
        i <= ident_end(s, i) <= s.len(),
        forall|m: int| i <= m < ident_end(s, i) ==> is_ident_char(#[trigger] s[m]),
        ident_end(s, i) < s.len() ==> !is_ident_char(s[ident_end(s, i)]),
    decreases s.len() - i,
{
    if i < s.len() && is_ident_char(s[i]) {
        lemma_ident_end(s, i + 1);
    }
}

pub proof fn lemma_digit_end(s: Seq<char>, i: int)
    requires
        0 <= i <= s.len(),
    ensures
        i <= digit_end(s, i) <= s.len(),
        forall|m: int| i <= m < digit_end(s, i) ==> is_digit_char(#[trigger] s[m]),
        digit_end(s, i) < s.len() ==> !is_digit_char(s[digit_end(s, i)]),
    decreases s.len() - i,
{
    if i < s.len() && is_digit_char(s[i]) {
        lemma_digit_end(s, i + 1);
    }
}

/// Ten to the `n`.
pub open spec fn pow10(n: nat) -> int
    decreases n,
{
    if n == 0 {
        1
    } else {
        10 * pow10((n - 1) as nat)
    }
}

pub proof fn lemma_pow10_small()
    ensures
        pow10(0) == 1,
        pow10(1) == 10,
        pow10(2) == 100,
        pow10(3) == 1000,
{
    assert(pow10(0) == 1);
    assert(pow10(1) == 10 * pow10(0));
    assert(pow10(2) == 10 * pow10(1));
    assert(pow10(3) == 10 * pow10(2));
}

pub proof fn lemma_pow10_le_15(n: nat)
    requires
        n <= 15,
    ensures
        1 <= pow10(n) <= 1000000000000000,
    decreases n,
{
    reveal_with_fuel(pow10, 17);
    if n > 0 {
        lemma_pow10_le_15((n - 1) as nat);
    }
}

/// The numeric value of a digit.
pub open spec fn digit_of(c: char) -> int {
    c as u32 - 48
}

/// The value of the digit run `s[i..j]`, most significant first.
pub open spec fn digits_val(s: Seq<char>, i: int, j: int) -> int
    decreases j - i,
{
    if j <= i {
        0
    } else {
        digits_val(s, i, j - 1) * 10 + digit_of(s[j - 1])
    }
}

pub proof fn lemma_digits_val_bound(s: Seq<char>, i: int, j: int)
    requires
        0 <= i <= j <= s.len(),
        forall|m: int| i <= m < j ==> is_digit_char(#[trigger] s[m]),
    ensures
        0 <= digits_val(s, i, j) < pow10((j - i) as nat),
    decreases j - i,
{
    if j > i {
        lemma_digits_val_bound(s, i, j - 1);
        assert(pow10((j - i) as nat) == 10 * pow10((j - i - 1) as nat));
    }
}

/// The value, in thousandths, and the end position of the number starting
/// at `i`: an optional minus sign, up to fifteen integer digits, and an
/// optional point with one to three fraction digits.
pub open spec fn spec_scan_number(s: Seq<char>, i: int) -> Result<(int, int), ParseError> {
    let neg = s[i] as u32 == 45;
    let i0 = if neg {
        i + 1
    } else {
        i
    };
    if i0 >= s.len() || !is_digit_char(s[i0]) {
        Err(ParseError::BadNumber)
    } else {
        let j = digit_end(s, i0);
        if j - i0 > 15 {
            Err(ParseError::BadNumber)
        } else {
            let ip = digits_val(s, i0, j);
            if j < s.len() && s[j] as u32 == 46 {
                let k = digit_end(s, j + 1);
                if k == j + 1 || k - (j + 1) > 3 {
                    Err(ParseError::BadNumber)
                } else {
                    let fd = k - (j + 1);
                    let mag = ip * 1000 + digits_val(s, j + 1, k) * pow10((3 - fd) as nat);
                    Ok(
                        (
                            if neg {
                                -mag
                            } else {
                                mag
                            },
                            k,
                        ),
                    )
                }
            } else {
                let mag = ip * 1000;
                Ok(
                    (
                        if neg {
                            -mag
                        } else {
                            mag
                        },
                        j,
                    ),
                )
            }
        }
    }
}

/// A scanned number consumes at least one character, stays inside the
/// input, and fits comfortably in a 64-bit integer.
pub proof fn lemma_scan_number(s: Seq<char>, i: int)
    requires
        0 <= i < s.len(),
    ensures
        spec_scan_number(s, i) matches Ok((v, n)) ==> i < n <= s.len() && -1000000000000000000
            < v < 1000000000000000000,
{
    let neg = s[i] as u32 == 45;
    let i0 = if neg {
        i + 1
    } else {
        i
    };
    if i0 < s.len() && is_digit_char(s[i0]) {
        lemma_digit_end(s, i0);
        let j = digit_end(s, i0);
        if j - i0 <= 15 {
            lemma_digits_val_bound(s, i0, j);
            lemma_pow10_le_15((j - i0) as nat);
            if j < s.len() && s[j] as u32 == 46 {
                lemma_digit_end(s, j + 1);
                let k = digit_end(s, j + 1);
                if k != j + 1 && k - (j + 1) <= 3 {
                    lemma_digits_val_bound(s, j + 1, k);
                    let fd = k - (j + 1);
                    let fv = digits_val(s, j + 1, k);
                    lemma_pow10_small();
                    if fd == 1 {
                        assert(fv < 10);
                        assert(fv * pow10((3 - fd) as nat) == fv * 100);
                        assert(fv * 100 < 1000);
                    } else if fd == 2 {
                        assert(fv < 100);
                        assert(fv * pow10((3 - fd) as nat) == fv * 10);
                        assert(fv * 10 < 1000);
                    } else {
                        assert(fv < 1000);
                        assert(fv * pow10((3 - fd) as nat) == fv * 1);
                    }
                }
            }
        }
    }
}

/// One more token in front of an already tokenized rest.
pub open spec fn cons_tok(
    t: SpecToken,
    rest: Result<Seq<SpecToken>, ParseError>,
) -> Result<Seq<SpecToken>, ParseError> {
    match rest {
        Ok(r) => Ok(seq![t] + r),
        Err(e) => Err(e),
    }
}

/// The token sequence of the expression from position `i` on, or the first
/// lexical error.  Whitespace separates tokens and is otherwise ignored.
pub open spec fn spec_tokenize(s: Seq<char>, i: int) -> Result<Seq<SpecToken>, ParseError>
    decreases s.len() - i,
    when 0 <= i <= s.len()
    via spec_tokenize_dec
{
    if i >= s.len() {
        Ok(Seq::empty())
    } else {
        let u = s[i] as u32;
        if is_ws_char(s[i]) {
            spec_tokenize(s, i + 1)
        } else if is_alpha_char(s[i]) {
            cons_tok(
                SpecToken::Ident(s.subrange(i, ident_end(s, i))),
                spec_tokenize(s, ident_end(s, i)),
            )
        } else if is_digit_char(s[i]) || u == 45 {
            match spec_scan_number(s, i) {
                Ok(vn) => cons_tok(SpecToken::Number(vn.0), spec_tokenize(s, vn.1)),
                Err(e) => Err(e),
            }
        } else if u == 62 {
            if i + 1 < s.len() && s[i + 1] as u32 == 61 {
                cons_tok(SpecToken::Op(ComparisonOp::GreaterEq), spec_tokenize(s, i + 2))
            } else {
                cons_tok(SpecToken::Op(ComparisonOp::Greater), spec_tokenize(s, i + 1))
            }
        } else if u == 60 {
            if i + 1 < s.len() && s[i + 1] as u32 == 61 {
                cons_tok(SpecToken::Op(ComparisonOp::LessEq), spec_tokenize(s, i + 2))
            } else {
                cons_tok(SpecToken::Op(ComparisonOp::Less), spec_tokenize(s, i + 1))
            }
        } else if u == 61 {
            if i + 1 < s.len() && s[i + 1] as u32 == 61 {
                cons_tok(SpecToken::Op(ComparisonOp::Equal), spec_tokenize(s, i + 2))
            } else {
                Err(ParseError::BadCharacter)
            }
        } else if u == 33 {
            if i + 1 < s.len() && s[i + 1] as u32 == 61 {
                cons_tok(SpecToken::Op(ComparisonOp::NotEqual), spec_tokenize(s, i + 2))
            } else {
                cons_tok(SpecToken::Bang, spec_tokenize(s, i + 1))
            }
        } else if u == 38 {
            if i + 1 < s.len() && s[i + 1] as u32 == 38 {
                cons_tok(SpecToken::AndAnd, spec_tokenize(s, i + 2))
            } else {
                Err(ParseError::BadCharacter)
            }
        } else if u == 124 {
            if i + 1 < s.len() && s[i + 1] as u32 == 124 {
                cons_tok(SpecToken::OrOr, spec_tokenize(s, i + 2))
            } else {
                Err(ParseError::BadCharacter)
            }
        } else if u == 40 {
            cons_tok(SpecToken::LParen, spec_tokenize(s, i + 1))
        } else if u == 41 {
            cons_tok(SpecToken::RParen, spec_tokenize(s, i + 1))
        } else {
            Err(ParseError::BadCharacter)
        }
    }
}

#[via_fn]
proof fn spec_tokenize_dec(s: Seq<char>, i: int) {
    if 0 <= i < s.len() {
        if is_alpha_char(s[i]) {
            lemma_ident_end(s, i);
        }
        if is_digit_char(s[i]) || s[i] as u32 == 45 {
            lemma_scan_number(s, i);
        }
    }
}

pub open spec fn tokenize_res_view(r: Result<Vec<Token>, ParseError>) -> Result<
    Seq<SpecToken>,
    ParseError,
> {
    match r {
        Ok(v) => Ok(tokens_view(v@)),
        Err(e) => Err(e),
    }
}

pub open spec fn num_res_view(r: Result<(i64, usize), ParseError>) -> Result<
    (int, int),
    ParseError,
> {
    match r {
        Ok(vn) => Ok((vn.0 as int, vn.1 as int)),
        Err(e) => Err(e),
    }
}

fn scan_ident_end(cs: &Vec<char>, i: usize) -> (j: usize)
    requires
        i <= cs@.len(),
    ensures
        j as int == ident_end(cs@, i as int),
        i <= j <= cs@.len(),
{
    let mut j = i;
    while j < cs.len() && ch_ident(cs[j])
        invariant
            i <= j <= cs@.len(),
            ident_end(cs@, i as int) == ident_end(cs@, j as int),
        decreases cs@.len() - j,
    {
        proof {
            assert(ident_end(cs@, j as int) == ident_end(cs@, j + 1));
        }
        j = j + 1;
    }
    proof {
        assert(ident_end(cs@, j as int) == j as int);
    }
    j
}

fn scan_digit_end(cs: &Vec<char>, i: usize) -> (j: usize)
    requires
        i <= cs@.len(),
    ensures
        j as int == digit_end(cs@, i as int),
        i <= j <= cs@.len(),
{
    let mut j = i;
    while j < cs.len() && ch_digit(cs[j])
        invariant
            i <= j <= cs@.len(),
            digit_end(cs@, i as int) == digit_end(cs@, j as int),
        decreases cs@.len() - j,
    {
        proof {
            assert(digit_end(cs@, j as int) == digit_end(cs@, j + 1));
        }
        j = j + 1;
    }
    proof {
        assert(digit_end(cs@, j as int) == j as int);
    }
    j
}

fn digits_value(cs: &Vec<char>, i: usize, j: usize) -> (v: u64)
    requires
        i <= j <= cs@.len(),
        j - i <= 15,
        forall|m: int| i <= m < j ==> is_digit_char(#[trigger] cs@[m]),
    ensures
        v as int == digits_val(cs@, i as int, j as int),
        v < 1000000000000000,
{
    let mut acc: u64 = 0;
    let mut m = i;
    while m < j
        invariant
            i <= m <= j <= cs@.len(),
            j - i <= 15,
            forall|q: int| i <= q < j ==> is_digit_char(#[trigger] cs@[q]),
            acc as int == digits_val(cs@, i as int, m as int),
            acc < pow10((m - i) as nat),
        decreases j - m,
    {
        proof {
            lemma_pow10_le_15((m - i) as nat);
            assert(pow10((m + 1 - i) as nat) == 10 * pow10((m - i) as nat));
        }
        let d = cs[m] as u32 - 48;
        acc = acc * 10 + d as u64;
        proof {
            assert(digits_val(cs@, i as int, m + 1) == digits_val(cs@, i as int, m as int) * 10
                + digit_of(cs@[m as int]));
        }
        m = m + 1;
    }
    proof {
        lemma_pow10_le_15((j - i) as nat);
    }
    acc
}

fn scan_number_tok(cs: &Vec<char>, i: usize) -> (r: Result<(i64, usize), ParseError>)
    requires
        i < cs@.len(),
    ensures
        num_res_view(r) == spec_scan_number(cs@, i as int),
{
    let n = cs.len();
    let neg = cs[i] as u32 == 45;
    let i0 = if neg {
        i + 1
    } else {
        i
    };
    if i0 >= n || !ch_digit(cs[i0]) {
        return Err(ParseError::BadNumber);
    }
    let j = scan_digit_end(cs, i0);
    proof {
        lemma_digit_end(cs@, i0 as int);
    }
    if j - i0 > 15 {
        return Err(ParseError::BadNumber);
    }
    let ip = digits_value(cs, i0, j);
    if j < n && cs[j] as u32 == 46 {
        let k = scan_digit_end(cs, j + 1);
        proof {
            lemma_digit_end(cs@, j + 1);
        }
        if k == j + 1 || k - (j + 1) > 3 {
            return Err(ParseError::BadNumber);
        }
        let fd = k - (j + 1);
        let fv = digits_value(cs, j + 1, k);
        proof {
            lemma_digits_val_bound(cs@, j + 1, k as int);
            lemma_pow10_small();
        }
        let frac: u64 = if fd == 1 {
            fv * 100
        } else if fd == 2 {
            fv * 10
        } else {
            fv
        };
        proof {
            assert(frac as int == digits_val(cs@, j + 1, k as int) * pow10((3 - fd) as nat));
        }
        let mag = ip * 1000 + frac;
        let v: i64 = if neg {
            -(mag as i64)
        } else {
            mag as i64
        };
        Ok((v, k))
    } else {
        let mag = ip * 1000;
        let v: i64 = if neg {
            -(mag as i64)
        } else {
            mag as i64
        };
        Ok((v, j))
    }
}

fn tok_cons(t: Token, rest: Result<Vec<Token>, ParseError>) -> (r: Result<Vec<Token>, ParseError>)
    ensures
        tokenize_res_view(r) == cons_tok(token_view(t), tokenize_res_view(rest)),
{
    match rest {
        Ok(mut v) => {
            let ghost r0 = v@;
            let ghost tv = token_view(t);
            v.insert(0, t);
            proof {
                assert(tokens_view(r0.insert(0, t)) =~= seq![tv] + tokens_view(r0));
            }
            Ok(v)
        },
        Err(e) => Err(e),
    }
}

/// The token list of a whole expression, or its first lexical error.
pub fn tokenize(s: &str) -> (r: Result<Vec<Token>, ParseError>)
    ensures
        tokenize_res_view(r) == spec_tokenize(s@, 0),
{
    let cs = chars_of(s);
    tokenize_from(s, &cs, 0)
}

fn tokenize_from(s: &str, cs: &Vec<char>, i: usize) -> (r: Result<Vec<Token>, ParseError>)
    requires
        cs@ == s@,
        i <= cs@.len(),
    ensures
        tokenize_res_view(r) == spec_tokenize(cs@, i as int),
    decreases cs@.len() - i,
{
    if i >= cs.len() {
        let empty: Vec<Token> = Vec::new();
        proof {
            assert(tokens_view(empty@) =~= Seq::<SpecToken>::empty());
        }
        return Ok(empty);
    }
    let c = cs[i];
    let u = c as u32;
    if ch_ws(c) {
        tokenize_from(s, cs, i + 1)
    } else if ch_alpha(c) {
        let j = scan_ident_end(cs, i);
        proof {
            lemma_ident_end(cs@, i as int);
        }
        let name = s.substring_char(i, j).to_owned();
        tok_cons(Token::Ident(name), tokenize_from(s, cs, j))
    } else if ch_digit(c) || u == 45 {
        match scan_number_tok(cs, i) {
            Ok(vn) => {
                proof {
                    lemma_scan_number(cs@, i as int);
                }
                tok_cons(Token::Number(vn.0), tokenize_from(s, cs, vn.1))
            },
            Err(e) => Err(e),
        }
    } else if u == 62 {
        if i + 1 < cs.len() && cs[i + 1] as u32 == 61 {
            tok_cons(Token::Op(ComparisonOp::GreaterEq), tokenize_from(s, cs, i + 2))
        } else {
            tok_cons(Token::Op(ComparisonOp::Greater), tokenize_from(s, cs, i + 1))
        }
    } else if u == 60 {
        if i + 1 < cs.len() && cs[i + 1] as u32 == 61 {
            tok_cons(Token::Op(ComparisonOp::LessEq), tokenize_from(s, cs, i + 2))
        } else {
            tok_cons(Token::Op(ComparisonOp::Less), tokenize_from(s, cs, i + 1))
        }
    } else if u == 61 {
        if i + 1 < cs.len() && cs[i + 1] as u32 == 61 {
            tok_cons(Token::Op(ComparisonOp::Equal), tokenize_from(s, cs, i + 2))
        } else {
            Err(ParseError::BadCharacter)
        }
    } else if u == 33 {
        if i + 1 < cs.len() && cs[i + 1] as u32 == 61 {
            tok_cons(Token::Op(ComparisonOp::NotEqual), tokenize_from(s, cs, i + 2))
        } else {
            tok_cons(Token::Bang, tokenize_from(s, cs, i + 1))
        }
    } else if u == 38 {
        if i + 1 < cs.len() && cs[i + 1] as u32 == 38 {
            tok_cons(Token::AndAnd, tokenize_from(s, cs, i + 2))
        } else {
            Err(ParseError::BadCharacter)
        }
    } else if u == 124 {
        if i + 1 < cs.len() && cs[i + 1] as u32 == 124 {
            tok_cons(Token::OrOr, tokenize_from(s, cs, i + 2))
        } else {
            Err(ParseError::BadCharacter)
        }
    } else if u == 40 {
        tok_cons(Token::LParen, tokenize_from(s, cs, i + 1))
    } else if u == 41 {
        tok_cons(Token::RParen, tokenize_from(s, cs, i + 1))
    } else {
        Err(ParseError::BadCharacter)
    }
}

} // verus!
