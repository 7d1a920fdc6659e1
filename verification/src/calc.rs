//! The calculator tool: an arithmetic expression over integers is split into
//! tokens, compiled into reverse Polish notation by recursive descent, and
//! the postfix program is run on a stack.
//!
//! Numbers are non-negative decimal integers that fit in an `i64`; the
//! operators are `+`, `-`, `*`, `/` with the usual precedence and left
//! associativity, and parentheses group.  Every intermediate result must fit
//! in an `i64`, and a division must be exact, so that a value the calculator
//! gives back is always the mathematical value of the expression.

use vstd::prelude::*;
use crate::number::{all_digits, digits_value, is_digit, lemma_digits_value_grows};
use crate::text::{is_ws, is_whitespace, chars_of};

verus! {

/// A lexical unit of an expression.
#[derive(Clone, Copy, Debug, PartialEq, Eq, Structural)]
pub enum Token {
    Num(i64),
    Plus,
    Minus,
    Star,
    Slash,
    LParen,
    RParen,
}

/// A binary arithmetic operator.
#[derive(Clone, Copy, Debug, PartialEq, Eq, Structural)]
pub enum BinOp {
    Add,
    Sub,
    Mul,
    Div,
}

/// An instruction of a postfix (reverse Polish) program.
#[derive(Clone, Copy, Debug, PartialEq, Eq, Structural)]
pub enum RpnItem {
    Push(i64),
    Apply(BinOp),
}

/// Why an expression has no value.
#[derive(Clone, Copy, Debug, PartialEq, Eq, Structural)]
pub enum CalcError {
    /// A character that is neither whitespace, a digit, an operator nor a parenthesis.
    InvalidCharacter,
    /// A number literal larger than `i64::MAX`.
    NumberTooLarge,
    /// The tokens do not form an expression.
    Syntax,
    /// A division by zero.
    DivisionByZero,
    /// A division whose quotient is not an integer.
    InexactDivision,
    /// An intermediate result outside the range of `i64`.
    Overflow,
}

/// The syntax tree of an expression.
pub enum Expr {
    Num(i64),
    Bin(BinOp, Box<Expr>, Box<Expr>),
}

/// The message of a calculator error.
pub open spec fn calc_error_message(e: CalcError) -> Seq<char> {
    match e {
        CalcError::InvalidCharacter => "invalid character in expression"@,
        CalcError::NumberTooLarge => "number too large"@,
        CalcError::Syntax => "malformed expression"@,
        CalcError::DivisionByZero => "division by zero"@,
        CalcError::InexactDivision => "division without an integer result"@,
        CalcError::Overflow => "arithmetic overflow"@,
    }
}

impl CalcError {
    /// A short description of the error.
    pub fn message(&self) -> (r: &'static str)
        ensures
            r@ == calc_error_message(*self),
    {
        match self {
            CalcError::InvalidCharacter => "invalid character in expression",
            CalcError::NumberTooLarge => "number too large",
            CalcError::Syntax => "malformed expression",
            CalcError::DivisionByZero => "division by zero",
            CalcError::InexactDivision => "division without an integer result",
            CalcError::Overflow => "arithmetic overflow",
        }
    }
}

// ----- tokens -----

/// The token of a one-character operator or parenthesis.
pub open spec fn symbol_token(c: char) -> Option<Token> {
    if c == '+' {
        Some(Token::Plus)
    } else if c == '-' {
        Some(Token::Minus)
    } else if c == '*' {
        Some(Token::Star)
    } else if c == '/' {
        Some(Token::Slash)
    } else if c == '(' {
        Some(Token::LParen)
    } else if c == ')' {
        Some(Token::RParen)
    } else {
        None
    }
}

/// The end of the run of digits that starts at `i`.
pub open spec fn digit_run_end(s: Seq<char>, i: int) -> int
    decreases s.len() - i,
{
    if 0 <= i < s.len() && is_digit(s[i]) {
        digit_run_end(s, i + 1)
    } else {
        i
    }
}

/// The tokens of `s` from position `i` on; the first error from the left
/// wins.
pub open spec fn tokens_from(s: Seq<char>, i: int) -> Result<Seq<Token>, CalcError>
    decreases s.len() - i, 0int,
{
    if i < 0 || i >= s.len() {
        Ok(seq![])
    } else if is_ws(s[i]) {
        tokens_from(s, i + 1)
    } else if is_digit(s[i]) {
        let j = digit_run_end(s, i);
        let v = digits_value(s.subrange(i, j));
        if v > i64::MAX {
            Err(CalcError::NumberTooLarge)
        } else if i < j <= s.len() {
            match tokens_from(s, j) {
                Ok(rest) => Ok(seq![Token::Num(v as i64)] + rest),
                Err(e) => Err(e),
            }
        } else {
            Err(CalcError::Syntax)
        }
    } else {
        match symbol_token(s[i]) {
            Some(t) => match tokens_from(s, i + 1) {
                Ok(rest) => Ok(seq![t] + rest),
                Err(e) => Err(e),
            },
            None => Err(CalcError::InvalidCharacter),
        }
    }
}

/// The tokens of `s`.
pub open spec fn tokens(s: Seq<char>) -> Result<Seq<Token>, CalcError> {
    tokens_from(s, 0)
}

proof fn lemma_digit_run_end(s: Seq<char>, i: int)
    requires
        0 <= i <= s.len(),
    ensures
        i <= digit_run_end(s, i) <= s.len(),
        forall|k: int| i <= k < digit_run_end(s, i) ==> #[trigger] is_digit(s[k]),
        digit_run_end(s, i) < s.len() ==> !is_digit(s[digit_run_end(s, i)]),
    decreases s.len() - i,
{
    if i < s.len() && is_digit(s[i]) {
        lemma_digit_run_end(s, i + 1);
    }
}

proof fn lemma_digit_run_end_step(s: Seq<char>, i: int, j: int)
    requires
        0 <= i <= j <= s.len(),
        forall|k: int| i <= k < j ==> #[trigger] is_digit(s[k]),
    ensures
        digit_run_end(s, i) == digit_run_end(s, j),
    decreases j - i,
{
    if i < j {
        lemma_digit_run_end_step(s, i + 1, j);
    }
}

/// The token of an operator or parenthesis character.
fn symbol(c: char) -> (r: Option<Token>)
    ensures
        r == symbol_token(c),
{
    if c == '+' {
        Some(Token::Plus)
    } else if c == '-' {
        Some(Token::Minus)
    } else if c == '*' {
        Some(Token::Star)
    } else if c == '/' {
        Some(Token::Slash)
    } else if c == '(' {
        Some(Token::LParen)
    } else if c == ')' {
        Some(Token::RParen)
    } else {
        None
    }
}

/// Splits an expression into tokens.
pub fn tokenize(expr: &str) -> (r: Result<Vec<Token>, CalcError>)
    ensures
        match r {
            Ok(t) => tokens(expr@) == Ok::<Seq<Token>, CalcError>(t@),
            Err(e) => tokens(expr@) == Err::<Seq<Token>, CalcError>(e),
        },
{
    let s = chars_of(expr);
    let mut out: Vec<Token> = Vec::new();
    let mut i: usize = 0;
    while i < s.len()
        invariant
            i <= s.len(),
            s@ == expr@,
            tokens(s@) == (match tokens_from(s@, i as int) {
                Ok(rest) => Ok(out@ + rest),
                Err(e) => Err(e),
            }),
        decreases s.len() - i,
    {
        let c = s[i];
        if is_whitespace(c) {
            assert(tokens_from(s@, i as int) == tokens_from(s@, i + 1));
            i += 1;
        } else if '0' <= c && c <= '9' {
            let ghost i0 = i as int;
            let big_limit: i128 = 0x7fff_ffff_ffff_ffff;
            let mut acc: i128 = 0;
            let mut big = false;
            let mut j: usize = i;
            proof {
                lemma_digit_run_end(s@, i0);
            }
            while j < s.len() && '0' <= s[j] && s[j] <= '9'
                invariant
                    i0 <= j <= s.len(),
                    i0 == i,
                    big_limit == 0x7fff_ffff_ffff_ffff,
                    forall|k: int| i0 <= k < j ==> #[trigger] is_digit(s@[k]),
                    !big ==> acc == digits_value(s@.subrange(i0, j as int)) && 0 <= acc <= big_limit,
                    big ==> digits_value(s@.subrange(i0, j as int)) > big_limit,
                decreases s.len() - j,
            {
                let ghost before = s@.subrange(i0, j as int);
                let ghost after = s@.subrange(i0, j + 1);
                proof {
                    assert(after.drop_last() =~= before);
                    assert(all_digits(after));
                    lemma_digits_value_grows(after, after.len() - 1);
                    assert(after.take(after.len() - 1) =~= before);
                }
                if !big {
                    let dv = (s[j] as u32 - '0' as u32) as i128;
                    let next = acc * 10 + dv;
                    if next > big_limit {
                        big = true;
                    } else {
                        acc = next;
                    }
                }
                j += 1;
            }
            proof {
                lemma_digit_run_end_step(s@, i0, j as int);
                if j < s.len() {
                    assert(!is_digit(s@[j as int]));
                }
                lemma_digit_run_end(s@, j as int);
                assert(digit_run_end(s@, i0) == j);
            }
            assert(!is_ws(c));
            if big {
                assert(tokens_from(s@, i as int) == Err::<Seq<Token>, CalcError>(CalcError::NumberTooLarge));
                return Err(CalcError::NumberTooLarge);
            }
            let ghost rest_before = tokens_from(s@, j as int);
            let ghost out_before = out@;
            out.push(Token::Num(acc as i64));
            proof {
                match rest_before {
                    Ok(rest) => {
                        assert(out@ + rest =~= out_before + (seq![Token::Num(acc as i64)]
                            + rest));
                    },
                    Err(e) => {},
                }
            }
            assert(tokens_from(s@, i as int) == (match rest_before {
                Ok(rest) => Ok(seq![Token::Num(acc as i64)] + rest),
                Err(e) => Err(e),
            }));
            i = j;
        } else {
            match symbol(c) {
                Some(t) => {
                    let ghost rest_before = tokens_from(s@, i + 1);
                    let ghost out_before = out@;
                    assert(tokens_from(s@, i as int) == (match rest_before {
                        Ok(rest) => Ok(seq![t] + rest),
                        Err(e) => Err(e),
                    }));
                    out.push(t);
                    proof {
                        match rest_before {
                            Ok(rest) => {
                                assert(out@ + rest =~= out_before + (seq![t] + rest));
                            },
                            Err(e) => {},
                        }
                    }
                    i += 1;
                },
                None => {
                    return Err(CalcError::InvalidCharacter);
                },
            }
        }
    }
    assert(out@ + seq![] =~= out@);
    Ok(out)
}

// ----- syntax -----

/// The operator that a `+`, `-`, `*` or `/` token stands for.
pub open spec fn op_of(t: Token) -> BinOp {
    match t {
        Token::Plus => BinOp::Add,
        Token::Minus => BinOp::Sub,
        Token::Star => BinOp::Mul,
        _ => BinOp::Div,
    }
}

/// An atom at `pos`: a number, or a parenthesised sum.  Gives the tree and the
/// position after it.
pub open spec fn parse_atom(t: Seq<Token>, pos: int) -> Option<(Expr, int)>
    decreases t.len() - pos, 0int,
{
    if 0 <= pos < t.len() {
        match t[pos] {
            Token::Num(n) => Some((Expr::Num(n), pos + 1)),
            Token::LParen => match parse_sum(t, pos + 1) {
                Some((e, p)) => if pos + 1 < p < t.len() && t[p] == Token::RParen {
                    Some((e, p + 1))
                } else {
                    None
                },
                None => None,
            },
            _ => None,
        }
    } else {
        None
    }
}

/// The rest of a product whose left part `lhs` ends at `pos`: any number of
/// `* atom` and `/ atom`, grouped to the left.
pub open spec fn parse_product_rest(t: Seq<Token>, lhs: Expr, pos: int) -> Option<(Expr, int)>
    decreases t.len() - pos, 1int,
{
    if 0 <= pos < t.len() && (t[pos] == Token::Star || t[pos] == Token::Slash) {
        match parse_atom(t, pos + 1) {
            Some((b, p)) => if pos < p <= t.len() {
                parse_product_rest(t, Expr::Bin(op_of(t[pos]), Box::new(lhs), Box::new(b)), p)
            } else {
                None
            },
            None => None,
        }
    } else {
        Some((lhs, pos))
    }
}

/// A product at `pos`: atoms joined by `*` and `/`.
pub open spec fn parse_product(t: Seq<Token>, pos: int) -> Option<(Expr, int)>
    decreases t.len() - pos, 2int,
{
    match parse_atom(t, pos) {
        Some((a, p)) => if pos < p <= t.len() {
            parse_product_rest(t, a, p)
        } else {
            None
        },
        None => None,
    }
}

/// The rest of a sum whose left part `lhs` ends at `pos`: any number of
/// `+ product` and `- product`, grouped to the left.
pub open spec fn parse_sum_rest(t: Seq<Token>, lhs: Expr, pos: int) -> Option<(Expr, int)>
    decreases t.len() - pos, 3int,
{
    if 0 <= pos < t.len() && (t[pos] == Token::Plus || t[pos] == Token::Minus) {
        match parse_product(t, pos + 1) {
            Some((b, p)) => if pos < p <= t.len() {
                parse_sum_rest(t, Expr::Bin(op_of(t[pos]), Box::new(lhs), Box::new(b)), p)
            } else {
                None
            },
            None => None,
        }
    } else {
        Some((lhs, pos))
    }
}

/// A sum at `pos`: products joined by `+` and `-`.
pub open spec fn parse_sum(t: Seq<Token>, pos: int) -> Option<(Expr, int)>
    decreases t.len() - pos, 4int,
{
    match parse_product(t, pos) {
        Some((a, p)) => if pos < p <= t.len() {
            parse_sum_rest(t, a, p)
        } else {
            None
        },
        None => None,
    }
}

/// The tree of a whole token sequence: one sum that uses every token.
pub open spec fn parse_tokens(t: Seq<Token>) -> Option<Expr> {
    match parse_sum(t, 0) {
        Some((e, p)) => if p == t.len() {
            Some(e)
        } else {
            None
        },
        None => None,
    }
}

// ----- values -----

/// The result of applying `op` to `a` and `b`, or why there is none.
pub open spec fn apply_op_spec(op: BinOp, a: i64, b: i64) -> Result<i64, CalcError> {
    let v: int = match op {
        BinOp::Add => a + b,
        BinOp::Sub => a - b,
        BinOp::Mul => a * b,
        BinOp::Div => if b != 0 { a / b } else { 0 },
    };
    if op == BinOp::Div && b == 0 {
        Err(CalcError::DivisionByZero)
    } else if op == BinOp::Div && a % b != 0 {
        Err(CalcError::InexactDivision)
    } else if v < i64::MIN || v > i64::MAX {
        Err(CalcError::Overflow)
    } else {
        Ok(v as i64)
    }
}

/// The value of an expression tree: left operand first, then right operand,
/// then the operator.
pub open spec fn eval(e: Expr) -> Result<i64, CalcError>
    decreases e,
{
    match e {
        Expr::Num(n) => Ok(n),
        Expr::Bin(op, a, b) => match eval(*a) {
            Ok(x) => match eval(*b) {
                Ok(y) => apply_op_spec(op, x, y),
                Err(err) => Err(err),
            },
            Err(err) => Err(err),
        },
    }
}

/// The postfix program of an expression tree.
pub open spec fn rpn(e: Expr) -> Seq<RpnItem>
    decreases e,
{
    match e {
        Expr::Num(n) => seq![RpnItem::Push(n)],
        Expr::Bin(op, a, b) => rpn(*a) + rpn(*b) + seq![RpnItem::Apply(op)],
    }
}

/// Runs a postfix program on a stack, the top of the stack last.
pub open spec fn run(items: Seq<RpnItem>, stack: Seq<i64>) -> Result<Seq<i64>, CalcError>
    decreases items.len(),
{
    if items.len() == 0 {
        Ok(stack)
    } else {
        match items[0] {
            RpnItem::Push(n) => run(items.drop_first(), stack.push(n)),
            RpnItem::Apply(op) => if stack.len() < 2 {
                Err(CalcError::Syntax)
            } else {
                match apply_op_spec(op, stack[stack.len() - 2], stack[stack.len() - 1]) {
                    Ok(v) => run(items.drop_first(), stack.drop_last().drop_last().push(v)),
                    Err(err) => Err(err),
                }
            },
        }
    }
}

/// The value that a postfix program leaves as the single item of an empty
/// stack.
pub open spec fn rpn_value(items: Seq<RpnItem>) -> Result<i64, CalcError> {
    match run(items, seq![]) {
        Ok(st) => if st.len() == 1 {
            Ok(st[0])
        } else {
            Err(CalcError::Syntax)
        },
        Err(err) => Err(err),
    }
}

/// The value of an expression text.
pub open spec fn calc_value(s: Seq<char>) -> Result<i64, CalcError> {
    match tokens(s) {
        Ok(t) => match parse_tokens(t) {
            Some(e) => eval(e),
            None => Err(CalcError::Syntax),
        },
        Err(err) => Err(err),
    }
}

/// Running the postfix program of an expression on any stack pushes the
/// expression's value, or stops with the error that evaluating it meets:
/// compiling into reverse Polish notation keeps the value.
pub proof fn lemma_rpn_runs_to_value(e: Expr, rest: Seq<RpnItem>, stack: Seq<i64>)
    ensures
        run(rpn(e) + rest, stack) == (match eval(e) {
            Ok(v) => run(rest, stack.push(v)),
            Err(err) => Err(err),
        }),
    decreases e,
{
    match e {
        Expr::Num(n) => {
            assert((rpn(e) + rest).drop_first() =~= rest);
        },
        Expr::Bin(op, a, b) => {
            let ra = rpn(*a);
            let rb = rpn(*b);
            let tail = seq![RpnItem::Apply(op)] + rest;
            assert(rpn(e) + rest =~= ra + (rb + tail));
            lemma_rpn_runs_to_value(*a, rb + tail, stack);
            match eval(*a) {
                Ok(x) => {
                    lemma_rpn_runs_to_value(*b, tail, stack.push(x));
                    match eval(*b) {
                        Ok(y) => {
                            let st = stack.push(x).push(y);
                            assert(tail.drop_first() =~= rest);
                            assert(st.drop_last().drop_last() =~= stack);
                        },
                        Err(_) => {},
                    }
                },
                Err(_) => {},
            }
        },
    }
}

/// The postfix program of an expression computes the expression's value.
pub proof fn lemma_rpn_value(e: Expr)
    ensures
        rpn_value(rpn(e)) == eval(e),
{
    lemma_rpn_runs_to_value(e, seq![], seq![]);
    assert(rpn(e) + seq![] =~= rpn(e));
    match eval(e) {
        Ok(v) => {
            assert(run(seq![], seq![v]) == Ok::<Seq<i64>, CalcError>(seq![v]));
        },
        Err(_) => {},
    }
}

// ----- laws of the grammar and of the operators -----

/// Whether the token at `j` of `t` (if any) is not `*` or `/`, so that a
/// product ending before `j` ends there.
pub open spec fn ends_product(t: Seq<Token>, j: int) -> bool {
    j >= t.len() || !(t[j] == Token::Star || t[j] == Token::Slash)
}

/// Whether the token at `j` of `t` (if any) is no operator, so that a sum
/// ending before `j` ends there.
pub open spec fn ends_sum(t: Seq<Token>, j: int) -> bool {
    ends_product(t, j) && (j >= t.len() || !(t[j] == Token::Plus || t[j] == Token::Minus))
}

/// Whether `b` stands in `t` at offset `k`.
pub open spec fn embedded(t: Seq<Token>, b: Seq<Token>, k: int) -> bool {
    &&& 0 <= k
    &&& k + b.len() <= t.len()
    &&& forall|i: int| 0 <= i < b.len() ==> t[k + i] == #[trigger] b[i]
}

proof fn lemma_atom_embedded(t: Seq<Token>, b: Seq<Token>, k: int, pos: int)
    requires
        embedded(t, b, k),
        0 <= pos <= b.len(),
        parse_atom(b, pos) is Some,
    ensures
        parse_atom(t, k + pos) == (match parse_atom(b, pos) {
            Some((e, p)) => Some((e, k + p)),
            None => None,
        }),
    decreases b.len() - pos, 0int,
{
    assert(t[k + pos] == b[pos]);
    if b[pos] == Token::LParen {
        let (e, q) = parse_sum(b, pos + 1).unwrap();
        lemma_sum_embedded(t, b, k, pos + 1);
        assert(t[k + q] == b[q]);
    }
}

proof fn lemma_product_rest_embedded(t: Seq<Token>, b: Seq<Token>, k: int, lhs: Expr, pos: int)
    requires
        embedded(t, b, k),
        0 <= pos <= b.len(),
        parse_product_rest(b, lhs, pos) is Some,
        parse_product_rest(b, lhs, pos).unwrap().1 == b.len() ==> ends_product(t, k + b.len()),
    ensures
        parse_product_rest(t, lhs, k + pos) == (match parse_product_rest(b, lhs, pos) {
            Some((e, p)) => Some((e, k + p)),
            None => None,
        }),
    decreases b.len() - pos, 1int,
{
    if pos < b.len() {
        assert(t[k + pos] == b[pos]);
    }
    if pos < b.len() && (b[pos] == Token::Star || b[pos] == Token::Slash) {
        let (x, q) = parse_atom(b, pos + 1).unwrap();
        lemma_atom_embedded(t, b, k, pos + 1);
        lemma_product_rest_embedded(
            t,
            b,
            k,
            Expr::Bin(op_of(b[pos]), Box::new(lhs), Box::new(x)),
            q,
        );
    }
}

proof fn lemma_product_embedded(t: Seq<Token>, b: Seq<Token>, k: int, pos: int)
    requires
        embedded(t, b, k),
        0 <= pos <= b.len(),
        parse_product(b, pos) is Some,
        parse_product(b, pos).unwrap().1 == b.len() ==> ends_product(t, k + b.len()),
    ensures
        parse_product(t, k + pos) == (match parse_product(b, pos) {
            Some((e, p)) => Some((e, k + p)),
            None => None,
        }),
    decreases b.len() - pos, 2int,
{
    let (a, q) = parse_atom(b, pos).unwrap();
    lemma_atom_embedded(t, b, k, pos);
    lemma_product_rest_embedded(t, b, k, a, q);
}

proof fn lemma_sum_rest_embedded(t: Seq<Token>, b: Seq<Token>, k: int, lhs: Expr, pos: int)
    requires
        embedded(t, b, k),
        0 <= pos <= b.len(),
        parse_sum_rest(b, lhs, pos) is Some,
        parse_sum_rest(b, lhs, pos).unwrap().1 == b.len() ==> ends_sum(t, k + b.len()),
    ensures
        parse_sum_rest(t, lhs, k + pos) == (match parse_sum_rest(b, lhs, pos) {
            Some((e, p)) => Some((e, k + p)),
            None => None,
        }),
    decreases b.len() - pos, 3int,
{
    if pos < b.len() {
        assert(t[k + pos] == b[pos]);
    }
    if pos < b.len() && (b[pos] == Token::Plus || b[pos] == Token::Minus) {
        let (x, q) = parse_product(b, pos + 1).unwrap();
        let e2 = Expr::Bin(op_of(b[pos]), Box::new(lhs), Box::new(x));
        if q == b.len() {
            assert(parse_sum_rest(b, e2, q) == Some((e2, q)));
        }
        lemma_product_embedded(t, b, k, pos + 1);
        lemma_sum_rest_embedded(t, b, k, e2, q);
    }
}

proof fn lemma_sum_embedded(t: Seq<Token>, b: Seq<Token>, k: int, pos: int)
    requires
        embedded(t, b, k),
        0 <= pos <= b.len(),
        parse_sum(b, pos) is Some,
        parse_sum(b, pos).unwrap().1 == b.len() ==> ends_sum(t, k + b.len()),
    ensures
        parse_sum(t, k + pos) == (match parse_sum(b, pos) {
            Some((e, p)) => Some((e, k + p)),
            None => None,
        }),
    decreases b.len() - pos, 4int,
{
    let (a, q) = parse_product(b, pos).unwrap();
    if q == b.len() {
        assert(parse_sum_rest(b, a, q) == Some((a, q)));
    }
    lemma_product_embedded(t, b, k, pos);
    lemma_sum_rest_embedded(t, b, k, a, q);
}

/// A sum that uses all of `b` goes on, in a longer sequence `t`, with the
/// `+` or `-` that may follow it.
proof fn lemma_sum_rest_goes_on(t: Seq<Token>, b: Seq<Token>, k: int, lhs: Expr, pos: int)
    requires
        embedded(t, b, k),
        0 <= pos <= b.len(),
        parse_sum_rest(b, lhs, pos) is Some,
        parse_sum_rest(b, lhs, pos).unwrap().1 == b.len(),
        ends_product(t, k + b.len()),
    ensures
        parse_sum_rest(t, lhs, k + pos) == parse_sum_rest(
            t,
            parse_sum_rest(b, lhs, pos).unwrap().0,
            k + b.len(),
        ),
    decreases b.len() - pos,
{
    if pos < b.len() {
        assert(t[k + pos] == b[pos]);
        let (x, q) = parse_product(b, pos + 1).unwrap();
        let e2 = Expr::Bin(op_of(b[pos]), Box::new(lhs), Box::new(x));
        lemma_product_embedded(t, b, k, pos + 1);
        lemma_sum_rest_goes_on(t, b, k, e2, q);
    }
}

/// A product that uses all of `b` goes on, in a longer sequence `t`, with
/// the `*` or `/` that may follow it.
proof fn lemma_product_rest_goes_on(t: Seq<Token>, b: Seq<Token>, k: int, lhs: Expr, pos: int)
    requires
        embedded(t, b, k),
        0 <= pos <= b.len(),
        parse_product_rest(b, lhs, pos) is Some,
        parse_product_rest(b, lhs, pos).unwrap().1 == b.len(),
    ensures
        parse_product_rest(t, lhs, k + pos) == parse_product_rest(
            t,
            parse_product_rest(b, lhs, pos).unwrap().0,
            k + b.len(),
        ),
    decreases b.len() - pos,
{
    if pos < b.len() {
        assert(t[k + pos] == b[pos]);
        let (x, q) = parse_atom(b, pos + 1).unwrap();
        let e2 = Expr::Bin(op_of(b[pos]), Box::new(lhs), Box::new(x));
        lemma_atom_embedded(t, b, k, pos + 1);
        lemma_product_rest_goes_on(t, b, k, e2, q);
    }
}

/// Addition and subtraction join sums: when `a` is a whole sum and `b` a
/// whole product, `a + b` and `a - b` are whole expressions whose tree
/// applies the operator to the two trees, so their value is the sum,
/// resp. the difference, of the two values whenever that fits in an `i64`.
/// (So `*` and `/` bind tighter: `8 - 2 * 3` is `8 - (2 * 3)`.)
pub proof fn lemma_sum_then_product(a: Seq<Token>, op: Token, b: Seq<Token>)
    requires
        op == Token::Plus || op == Token::Minus,
        parse_sum(a, 0) matches Some((_, p)) && p == a.len(),
        parse_product(b, 0) matches Some((_, q)) && q == b.len(),
    ensures
        ({
            let ea = parse_sum(a, 0).unwrap().0;
            let eb = parse_product(b, 0).unwrap().0;
            let e = Expr::Bin(op_of(op), Box::new(ea), Box::new(eb));
            &&& parse_tokens(a + seq![op] + b) == Some(e)
            &&& (eval(ea) matches Ok(x) && eval(eb) matches Ok(y) && op == Token::Plus
                && i64::MIN <= x + y <= i64::MAX) ==> eval(e) == Ok::<i64, CalcError>(
                (eval(ea).unwrap() + eval(eb).unwrap()) as i64,
            )
            &&& (eval(ea) matches Ok(x) && eval(eb) matches Ok(y) && op == Token::Minus
                && i64::MIN <= x - y <= i64::MAX) ==> eval(e) == Ok::<i64, CalcError>(
                (eval(ea).unwrap() - eval(eb).unwrap()) as i64,
            )
        }),
{
    let t = a + seq![op] + b;
    let ea = parse_sum(a, 0).unwrap().0;
    let eb = parse_product(b, 0).unwrap().0;
    let e = Expr::Bin(op_of(op), Box::new(ea), Box::new(eb));
    let k: int = a.len() as int + 1;
    assert(embedded(t, a, 0)) by {
        assert forall|i: int| 0 <= i < a.len() implies t[0 + i] == #[trigger] a[i] by {}
    }
    assert(embedded(t, b, k)) by {
        assert forall|i: int| 0 <= i < b.len() implies t[k + i] == #[trigger] b[i] by {}
    }
    assert(t[a.len() as int] == op);
    // the sum of `a` goes on at the operator
    let (x0, q0) = parse_product(a, 0).unwrap();
    if q0 == a.len() {
        assert(parse_sum_rest(a, x0, q0) == Some((x0, q0)));
    }
    lemma_product_embedded(t, a, 0, 0);
    lemma_sum_rest_goes_on(t, a, 0, x0, q0);
    assert(parse_sum(t, 0) == parse_sum_rest(t, ea, a.len() as int));
    // then `b` is the product after the operator, and nothing follows
    lemma_product_embedded(t, b, k, 0);
    assert(parse_product(t, k) == Some((eb, t.len() as int)));
    assert(parse_sum_rest(t, e, t.len() as int) == Some((e, t.len() as int)));
    assert(parse_sum(t, 0) == Some((e, t.len() as int)));
    if eval(ea) is Ok && eval(eb) is Ok {
        lemma_apply_op_arithmetic(op_of(op), eval(ea).unwrap(), eval(eb).unwrap());
    }
}

/// Multiplication and division join products: when `a` is a whole product
/// and `b` a whole atom, `a * b` and `a / b` are whole expressions whose tree
/// applies the operator to the two trees, so their value is the product,
/// resp. the exact quotient, of the two values whenever that fits.
pub proof fn lemma_product_then_atom(a: Seq<Token>, op: Token, b: Seq<Token>)
    requires
        op == Token::Star || op == Token::Slash,
        parse_product(a, 0) matches Some((_, p)) && p == a.len(),
        parse_atom(b, 0) matches Some((_, q)) && q == b.len(),
    ensures
        ({
            let ea = parse_product(a, 0).unwrap().0;
            let eb = parse_atom(b, 0).unwrap().0;
            let e = Expr::Bin(op_of(op), Box::new(ea), Box::new(eb));
            &&& parse_tokens(a + seq![op] + b) == Some(e)
            &&& (eval(ea) matches Ok(x) && eval(eb) matches Ok(y) && op == Token::Star
                && i64::MIN <= x * y <= i64::MAX) ==> eval(e) == Ok::<i64, CalcError>(
                (eval(ea).unwrap() * eval(eb).unwrap()) as i64,
            )
            &&& (op == Token::Slash && eval(e) is Ok) ==> eval(e).unwrap() * eval(eb).unwrap()
                == eval(ea).unwrap()
        }),
{
    let t = a + seq![op] + b;
    let ea = parse_product(a, 0).unwrap().0;
    let eb = parse_atom(b, 0).unwrap().0;
    let e = Expr::Bin(op_of(op), Box::new(ea), Box::new(eb));
    let k: int = a.len() as int + 1;
    assert(embedded(t, a, 0)) by {
        assert forall|i: int| 0 <= i < a.len() implies t[0 + i] == #[trigger] a[i] by {}
    }
    assert(embedded(t, b, k)) by {
        assert forall|i: int| 0 <= i < b.len() implies t[k + i] == #[trigger] b[i] by {}
    }
    assert(t[a.len() as int] == op);
    let (x0, q0) = parse_atom(a, 0).unwrap();
    lemma_atom_embedded(t, a, 0, 0);
    lemma_product_rest_goes_on(t, a, 0, x0, q0);
    assert(parse_product(t, 0) == parse_product_rest(t, ea, a.len() as int));
    lemma_atom_embedded(t, b, k, 0);
    assert(parse_atom(t, k) == Some((eb, t.len() as int)));
    assert(parse_product_rest(t, e, t.len() as int) == Some((e, t.len() as int)));
    assert(parse_product(t, 0) == Some((e, t.len() as int)));
    assert(parse_sum_rest(t, e, t.len() as int) == Some((e, t.len() as int)));
    assert(parse_sum(t, 0) == Some((e, t.len() as int)));
    if eval(ea) is Ok && eval(eb) is Ok {
        lemma_apply_op_arithmetic(op_of(op), eval(ea).unwrap(), eval(eb).unwrap());
    }
}

/// The operators compute the arithmetic they name: a result is the exact
/// sum, difference, product, or a quotient that multiplied back by the
/// divisor gives the dividend; and a result comes whenever it exists and
/// fits in an `i64` (for a division: a non-zero divisor that divides the
/// dividend); division by zero is the only cause of `DivisionByZero`.
pub proof fn lemma_apply_op_arithmetic(op: BinOp, a: i64, b: i64)
    ensures
        apply_op_spec(op, a, b) matches Ok(v) ==> {
            &&& op == BinOp::Add ==> v == a + b
            &&& op == BinOp::Sub ==> v == a - b
            &&& op == BinOp::Mul ==> v == a * b
            &&& op == BinOp::Div ==> v * b == a
        },
        op == BinOp::Add && i64::MIN <= a + b <= i64::MAX ==> apply_op_spec(op, a, b) is Ok,
        op == BinOp::Sub && i64::MIN <= a - b <= i64::MAX ==> apply_op_spec(op, a, b) is Ok,
        op == BinOp::Mul && i64::MIN <= a * b <= i64::MAX ==> apply_op_spec(op, a, b) is Ok,
        forall|q: int|
            #![trigger q * b]
            op == BinOp::Div && b != 0 && q * b == a && i64::MIN <= q <= i64::MAX
                ==> apply_op_spec(op, a, b) == Ok::<i64, CalcError>(q as i64),
        op == BinOp::Div ==> (apply_op_spec(op, a, b) == Err::<i64, CalcError>(
            CalcError::DivisionByZero) <==> b == 0),
{
    if op == BinOp::Div && b != 0 {
        let ai = a as int;
        let bi = b as int;
        assert forall|q: int| #[trigger] (q * bi) == ai implies ai % bi == 0 && ai / bi == q by {
            lemma_exact_quotient(ai, bi, q);
        }
        if ai % bi == 0 {
            lemma_remainder_zero(ai, bi);
        }
    }
}

proof fn lemma_remainder_zero(a: int, b: int)
    requires
        b != 0,
        a % b == 0,
    ensures
        (a / b) * b == a,
{
    vstd::arithmetic::div_mod::lemma_fundamental_div_mod(a, b);
    vstd::arithmetic::mul::lemma_mul_is_commutative(b, a / b);
}

proof fn lemma_exact_quotient(a: int, b: int, q: int)
    requires
        b != 0,
        q * b == a,
    ensures
        a % b == 0,
        a / b == q,
{
    if b > 0 {
        vstd::arithmetic::div_mod::lemma_fundamental_div_mod_converse(a, b, q, 0);
    } else {
        vstd::arithmetic::div_mod::lemma_fundamental_div_mod(a, b);
        let r = a % b;
        let d = a / b;
        assert(0 <= r < -b);
        vstd::arithmetic::mul::lemma_mul_is_distributive_sub(b, q, d);
        vstd::arithmetic::mul::lemma_mul_is_commutative(b, q);
        assert(b * (q - d) == r);
        if q - d > 0 {
            vstd::arithmetic::mul::lemma_mul_strict_inequality(b, 0, q - d);
            assert(false) by (nonlinear_arith)
                requires
                    b < 0,
                    q - d >= 1,
                    b * (q - d) == r,
                    r >= 0,
            ;
        } else if q - d < 0 {
            assert(false) by (nonlinear_arith)
                requires
                    b < 0,
                    q - d <= -1,
                    b * (q - d) == r,
                    r < -b,
            ;
        }
    }
}

// ----- compiling into reverse Polish notation -----

fn is_token(t: Token, want: Token) -> (r: bool)
    ensures
        r == (t == want),
{
    match (t, want) {
        (Token::Num(a), Token::Num(b)) => a == b,
        (Token::Plus, Token::Plus) => true,
        (Token::Minus, Token::Minus) => true,
        (Token::Star, Token::Star) => true,
        (Token::Slash, Token::Slash) => true,
        (Token::LParen, Token::LParen) => true,
        (Token::RParen, Token::RParen) => true,
        _ => false,
    }
}

fn op_of_token(t: Token) -> (r: BinOp)
    ensures
        r == op_of(t),
{
    match t {
        Token::Plus => BinOp::Add,
        Token::Minus => BinOp::Sub,
        Token::Star => BinOp::Mul,
        _ => BinOp::Div,
    }
}

/// Emits the postfix program of the atom at `pos`.
fn emit_atom(t: &Vec<Token>, pos: usize, out: &mut Vec<RpnItem>) -> (r: Option<usize>)
    ensures
        match parse_atom(t@, pos as int) {
            Some((e, p)) => r matches Some(k) && k == p && pos < p <= t@.len() && final(out)@ == old(
                out,
            )@ + rpn(e),
            None => r is None,
        },
    decreases t@.len() - pos, 0int,
{
    if pos >= t.len() {
        return None;
    }
    match t[pos] {
        Token::Num(n) => {
            out.push(RpnItem::Push(n));
            Some(pos + 1)
        },
        Token::LParen => {
            match emit_sum(t, pos + 1, out) {
                Some(p) => {
                    if p < t.len() && is_token(t[p], Token::RParen) {
                        Some(p + 1)
                    } else {
                        None
                    }
                },
                None => None,
            }
        },
        _ => None,
    }
}

/// Emits the rest of a product whose left part, already emitted, is `lhs`.
fn emit_product_rest(
    t: &Vec<Token>,
    pos: usize,
    out: &mut Vec<RpnItem>,
    Ghost(base): Ghost<Seq<RpnItem>>,
    Ghost(lhs): Ghost<Expr>,
) -> (r: Option<usize>)
    requires
        old(out)@ == base + rpn(lhs),
        pos <= t@.len(),
    ensures
        match parse_product_rest(t@, lhs, pos as int) {
            Some((e, q)) => r matches Some(k) && k == q && pos <= q <= t@.len() && final(out)@ == base
                + rpn(e),
            None => r is None,
        },
    decreases t@.len() - pos, 1int,
{
    if pos < t.len() && (is_token(t[pos], Token::Star) || is_token(t[pos], Token::Slash)) {
        let op = op_of_token(t[pos]);
        let ghost mid = out@;
        match emit_atom(t, pos + 1, out) {
            Some(p) => {
                let ghost b = parse_atom(t@, pos + 1).unwrap().0;
                let ghost e2 = Expr::Bin(op, Box::new(lhs), Box::new(b));
                out.push(RpnItem::Apply(op));
                assert(out@ =~= base + rpn(e2));
                emit_product_rest(t, p, out, Ghost(base), Ghost(e2))
            },
            None => None,
        }
    } else {
        Some(pos)
    }
}

/// Emits the postfix program of the product at `pos`.
fn emit_product(t: &Vec<Token>, pos: usize, out: &mut Vec<RpnItem>) -> (r: Option<usize>)
    ensures
        match parse_product(t@, pos as int) {
            Some((e, p)) => r matches Some(k) && k == p && pos < p <= t@.len() && final(out)@ == old(
                out,
            )@ + rpn(e),
            None => r is None,
        },
    decreases t@.len() - pos, 2int,
{
    let ghost base = out@;
    match emit_atom(t, pos, out) {
        Some(p) => {
            let ghost a = parse_atom(t@, pos as int).unwrap().0;
            emit_product_rest(t, p, out, Ghost(base), Ghost(a))
        },
        None => None,
    }
}

/// Emits the rest of a sum whose left part, already emitted, is `lhs`.
fn emit_sum_rest(
    t: &Vec<Token>,
    pos: usize,
    out: &mut Vec<RpnItem>,
    Ghost(base): Ghost<Seq<RpnItem>>,
    Ghost(lhs): Ghost<Expr>,
) -> (r: Option<usize>)
    requires
        old(out)@ == base + rpn(lhs),
        pos <= t@.len(),
    ensures
        match parse_sum_rest(t@, lhs, pos as int) {
            Some((e, q)) => r matches Some(k) && k == q && pos <= q <= t@.len() && final(out)@ == base
                + rpn(e),
            None => r is None,
        },
    decreases t@.len() - pos, 3int,
{
    if pos < t.len() && (is_token(t[pos], Token::Plus) || is_token(t[pos], Token::Minus)) {
        let op = op_of_token(t[pos]);
        match emit_product(t, pos + 1, out) {
            Some(p) => {
                let ghost b = parse_product(t@, pos + 1).unwrap().0;
                let ghost e2 = Expr::Bin(op, Box::new(lhs), Box::new(b));
                out.push(RpnItem::Apply(op));
                assert(out@ =~= base + rpn(e2));
                emit_sum_rest(t, p, out, Ghost(base), Ghost(e2))
            },
            None => None,
        }
    } else {
        Some(pos)
    }
}

/// Emits the postfix program of the sum at `pos`.
fn emit_sum(t: &Vec<Token>, pos: usize, out: &mut Vec<RpnItem>) -> (r: Option<usize>)
    ensures
        match parse_sum(t@, pos as int) {
            Some((e, p)) => r matches Some(k) && k == p && pos < p <= t@.len() && final(out)@ == old(
                out,
            )@ + rpn(e),
            None => r is None,
        },
    decreases t@.len() - pos, 4int,
{
    let ghost base = out@;
    match emit_product(t, pos, out) {
        Some(p) => {
            let ghost a = parse_product(t@, pos as int).unwrap().0;
            emit_sum_rest(t, p, out, Ghost(base), Ghost(a))
        },
        None => None,
    }
}

/// Compiles a token sequence into the postfix program of the expression it
/// spells, by recursive descent.  Fails with `Syntax` exactly when the
/// tokens are not one whole expression.
pub fn to_rpn(t: &Vec<Token>) -> (r: Result<Vec<RpnItem>, CalcError>)
    ensures
        match parse_tokens(t@) {
            Some(e) => r matches Ok(items) && items@ == rpn(e),
            None => r == Err::<Vec<RpnItem>, CalcError>(CalcError::Syntax),
        },
{
    let mut out: Vec<RpnItem> = Vec::new();
    match emit_sum(t, 0, &mut out) {
        Some(p) => {
            if p == t.len() {
                assert(out@ =~= rpn(parse_sum(t@, 0).unwrap().0));
                Ok(out)
            } else {
                Err(CalcError::Syntax)
            }
        },
        None => Err(CalcError::Syntax),
    }
}

// ----- running the postfix program -----

/// Applies `op` to `a` and `b` with checked arithmetic.
pub fn apply_op(op: BinOp, a: i64, b: i64) -> (r: Result<i64, CalcError>)
    ensures
        r == apply_op_spec(op, a, b),
{
    match op {
        BinOp::Add => match a.checked_add(b) {
            Some(v) => Ok(v),
            None => Err(CalcError::Overflow),
        },
        BinOp::Sub => match a.checked_sub(b) {
            Some(v) => Ok(v),
            None => Err(CalcError::Overflow),
        },
        BinOp::Mul => match a.checked_mul(b) {
            Some(v) => Ok(v),
            None => Err(CalcError::Overflow),
        },
        BinOp::Div => {
            if b == 0 {
                Err(CalcError::DivisionByZero)
            } else if b == -1 {
                assert(a % b == 0) by (nonlinear_arith)
                    requires
                        b == -1,
                ;
                assert(a / b == -a) by (nonlinear_arith)
                    requires
                        b == -1,
                ;
                if a == i64::MIN {
                    Err(CalcError::Overflow)
                } else {
                    Ok(-a)
                }
            } else {
                match a.checked_rem_euclid(b) {
                    Some(m) => {
                        if m != 0 {
                            Err(CalcError::InexactDivision)
                        } else {
                            match a.checked_div_euclid(b) {
                                Some(q) => Ok(q),
                                None => Err(CalcError::Overflow),
                            }
                        }
                    },
                    None => Err(CalcError::Overflow),
                }
            }
        },
    }
}

/// Runs a postfix program on an empty stack and gives back the single value
/// it leaves.
pub fn eval_rpn(items: &Vec<RpnItem>) -> (r: Result<i64, CalcError>)
    ensures
        r == rpn_value(items@),
{
    let mut stack: Vec<i64> = Vec::new();
    let mut i: usize = 0;
    assert(items@.skip(0) =~= items@);
    while i < items.len()
        invariant
            i <= items.len(),
            run(items@, seq![]) == run(items@.skip(i as int), stack@),
        decreases items.len() - i,
    {
        let ghost rest = items@.skip(i as int);
        assert(rest[0] == items@[i as int]);
        assert(rest.drop_first() =~= items@.skip(i + 1));
        match items[i] {
            RpnItem::Push(n) => {
                stack.push(n);
            },
            RpnItem::Apply(op) => {
                if stack.len() < 2 {
                    return Err(CalcError::Syntax);
                }
                let b = stack.pop().unwrap();
                let a = stack.pop().unwrap();
                match apply_op(op, a, b) {
                    Ok(v) => {
                        stack.push(v);
                    },
                    Err(e) => {
                        return Err(e);
                    },
                }
            },
        }
        i += 1;
    }
    assert(items@.skip(i as int) =~= Seq::<RpnItem>::empty());
    if stack.len() == 1 {
        Ok(stack[0])
    } else {
        Err(CalcError::Syntax)
    }
}

/// The value of an arithmetic expression: tokenized, compiled into reverse
/// Polish notation, and run.
pub fn evaluate(expr: &str) -> (r: Result<i64, CalcError>)
    ensures
        r == calc_value(expr@),
{
    let toks = match tokenize(expr) {
        Ok(t) => t,
        Err(e) => return Err(e),
    };
    let items = match to_rpn(&toks) {
        Ok(items) => items,
        Err(e) => return Err(e),
    };
    proof {
        lemma_rpn_value(parse_tokens(toks@).unwrap());
    }
    eval_rpn(&items)
}

} // verus!
