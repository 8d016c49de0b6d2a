//! The grammar of the calculator: tokens become the arithmetic operations to apply, in the
//! order in which they are applied, and, where the tokens do not form an expression, the
//! syntax error met after those operations.
//!
//! ```text
//! expr   = term (('+' | '-') term)*
//! term   = factor (('*' | '/') factor)*
//! factor = NUMBER | '(' expr ')' | '-' factor
//! ```
use vstd::prelude::*;
use crate::plugin::calculator::{lexeme, Lexeme, Token};

verus! {

/// One step of evaluating an expression on a stack of values.
#[derive(Debug, Clone, Copy, PartialEq, Eq, Structural)]
pub enum CalcOp {
    /// Push the number of the token at this position.
    Num(usize),
    /// Pop two values, push their sum.
    Add,
    /// Pop two values, push the first minus the second.
    Sub,
    /// Pop two values, push their product.
    Mul,
    /// Pop two values, push the first divided by the second.
    Div,
    /// Negate the top value.
    Neg,
}

/// Why tokens do not form an expression.
#[derive(Debug, Clone, Copy, PartialEq, Eq, Structural)]
pub enum CalcSyntaxError {
    /// The tokens ended where a factor was expected.
    End,
    /// A `(` was not closed.
    MissingParen,
    /// The token at this position was not expected.
    Unexpected(usize),
}

/// The outcome of reading part of the tokens: the operations it applies, where it stopped,
/// and the syntax error it met, if any.
pub struct Parsed {
    pub ops: Seq<CalcOp>,
    pub pos: int,
    pub error: Option<CalcSyntaxError>,
}

/// The plain values of tokens.
pub open spec fn lexemes(ts: Seq<Token>) -> Seq<Lexeme> {
    ts.map_values(|t: Token| lexeme(t))
}

/// `expr` from `pos`.
pub open spec fn calc_expr(ts: Seq<Lexeme>, pos: int) -> Parsed
    decreases ts.len() - pos, 4int,
{
    if pos < 0 || pos > ts.len() {
        Parsed { ops: Seq::empty(), pos, error: Some(CalcSyntaxError::End) }
    } else {
        let t = calc_term(ts, pos);
        if t.error is Some || !(pos < t.pos <= ts.len()) {
            t
        } else {
            let r = calc_expr_tail(ts, t.pos);
            Parsed { ops: t.ops + r.ops, pos: r.pos, error: r.error }
        }
    }
}

/// The `(('+' | '-') term)*` part of `expr`, from `pos`.
pub open spec fn calc_expr_tail(ts: Seq<Lexeme>, pos: int) -> Parsed
    decreases ts.len() - pos, 3int,
{
    if 0 <= pos < ts.len() && (ts[pos] is Plus || ts[pos] is Minus) {
        let op = if ts[pos] is Plus {
            CalcOp::Add
        } else {
            CalcOp::Sub
        };
        let t = calc_term(ts, pos + 1);
        if t.error is Some {
            t
        } else if pos < t.pos <= ts.len() {
            let r = calc_expr_tail(ts, t.pos);
            Parsed { ops: t.ops.push(op) + r.ops, pos: r.pos, error: r.error }
        } else {
            Parsed { ops: t.ops.push(op), pos: t.pos, error: None }
        }
    } else {
        Parsed { ops: Seq::empty(), pos, error: None }
    }
}

/// `term` from `pos`.
pub open spec fn calc_term(ts: Seq<Lexeme>, pos: int) -> Parsed
    decreases ts.len() - pos, 2int,
{
    if pos < 0 || pos > ts.len() {
        Parsed { ops: Seq::empty(), pos, error: Some(CalcSyntaxError::End) }
    } else {
        let f = calc_factor(ts, pos);
        if f.error is Some || !(pos < f.pos <= ts.len()) {
            f
        } else {
            let r = calc_term_tail(ts, f.pos);
            Parsed { ops: f.ops + r.ops, pos: r.pos, error: r.error }
        }
    }
}

/// The `(('*' | '/') factor)*` part of `term`, from `pos`.
pub open spec fn calc_term_tail(ts: Seq<Lexeme>, pos: int) -> Parsed
    decreases ts.len() - pos, 1int,
{
    if 0 <= pos < ts.len() && (ts[pos] is Mul || ts[pos] is Div) {
        let op = if ts[pos] is Mul {
            CalcOp::Mul
        } else {
            CalcOp::Div
        };
        let f = calc_factor(ts, pos + 1);
        if f.error is Some {
            f
        } else if pos < f.pos <= ts.len() {
            let r = calc_term_tail(ts, f.pos);
            Parsed { ops: f.ops.push(op) + r.ops, pos: r.pos, error: r.error }
        } else {
            Parsed { ops: f.ops.push(op), pos: f.pos, error: None }
        }
    } else {
        Parsed { ops: Seq::empty(), pos, error: None }
    }
}

/// `factor` from `pos`.
pub open spec fn calc_factor(ts: Seq<Lexeme>, pos: int) -> Parsed
    decreases ts.len() - pos, 0int,
{
    if pos < 0 || pos >= ts.len() {
        Parsed { ops: Seq::empty(), pos, error: Some(CalcSyntaxError::End) }
    } else {
        match ts[pos] {
            Lexeme::Number(_) => Parsed { ops: seq![CalcOp::Num(pos as usize)], pos: pos + 1, error: None },
            Lexeme::LParen => {
                let e = calc_expr(ts, pos + 1);
                if e.error is Some {
                    e
                } else if 0 <= e.pos < ts.len() && ts[e.pos] is RParen {
                    Parsed { ops: e.ops, pos: e.pos + 1, error: None }
                } else {
                    Parsed { ops: e.ops, pos: e.pos, error: Some(CalcSyntaxError::MissingParen) }
                }
            },
            Lexeme::Minus => {
                let f = calc_factor(ts, pos + 1);
                if f.error is Some {
                    f
                } else {
                    Parsed { ops: f.ops.push(CalcOp::Neg), pos: f.pos, error: None }
                }
            },
            _ => Parsed {
                ops: Seq::empty(),
                pos,
                error: Some(CalcSyntaxError::Unexpected(pos as usize)),
            },
        }
    }
}

/// A whole expression: `expr` from the first token, which must use up all the tokens; a token
/// left over is unexpected.
pub open spec fn calc_program(ts: Seq<Lexeme>) -> (Seq<CalcOp>, Option<CalcSyntaxError>) {
    let e = calc_expr(ts, 0);
    if e.error is None && 0 <= e.pos < ts.len() {
        (e.ops, Some(CalcSyntaxError::Unexpected(e.pos as usize)))
    } else {
        (e.ops, e.error)
    }
}

/// The operation of a binary operator token.
pub open spec fn binary_op(l: Lexeme) -> CalcOp {
    match l {
        Lexeme::Plus => CalcOp::Add,
        Lexeme::Minus => CalcOp::Sub,
        Lexeme::Mul => CalcOp::Mul,
        _ => CalcOp::Div,
    }
}

/// An operator of one precedence level: `+` and `-` when `additive`, else `*` and `/`.
pub open spec fn level_operator(l: Lexeme, additive: bool) -> bool {
    if additive {
        l is Plus || l is Minus
    } else {
        l is Mul || l is Div
    }
}

/// `n0 o1 n1 o2 ... ok nk`: numbers and operators of one precedence level, alternating,
/// starting and ending with a number.
pub open spec fn is_chain(ts: Seq<Lexeme>, additive: bool) -> bool {
    &&& ts.len() % 2 == 1
    &&& forall|i: int|
        0 <= i < ts.len() ==> if i % 2 == 0 {
            #[trigger] ts[i] is Number
        } else {
            level_operator(ts[i], additive)
        }
}

/// Evaluation from left to right: the first number, then each further number followed by
/// the operator written before it, so that `n0 o1 n1 o2 n2` is `(n0 o1 n1) o2 n2`.
pub open spec fn left_fold_ops(ts: Seq<Lexeme>) -> Seq<CalcOp> {
    Seq::new(
        ts.len(),
        |j: int|
            if j == 0 {
                CalcOp::Num(0)
            } else if j % 2 == 1 {
                CalcOp::Num((j + 1) as usize)
            } else {
                binary_op(ts[j - 1])
            },
    )
}

proof fn lemma_number_factor(ts: Seq<Lexeme>, p: int)
    requires
        0 <= p < ts.len(),
        ts[p] is Number,
    ensures
        calc_factor(ts, p) == (Parsed { ops: seq![CalcOp::Num(p as usize)], pos: p + 1, error: None }),
{
}

/// In a chain, a number alone is a term of an additive chain (it is followed by `+`, `-` or
/// the end).
proof fn lemma_number_term(ts: Seq<Lexeme>, p: int)
    requires
        is_chain(ts, true),
        0 <= p < ts.len(),
        p % 2 == 0,
    ensures
        calc_term(ts, p) == (Parsed { ops: seq![CalcOp::Num(p as usize)], pos: p + 1, error: None }),
{
    assert(ts[p] is Number);
    lemma_number_factor(ts, p);
    if p + 1 < ts.len() {
        assert(level_operator(ts[p + 1], true));
    }
    assert(seq![CalcOp::Num(p as usize)] + Seq::<CalcOp>::empty() =~= seq![CalcOp::Num(p as usize)]);
}

proof fn lemma_additive_tail(ts: Seq<Lexeme>, q: int)
    requires
        is_chain(ts, true),
        1 <= q <= ts.len(),
        q % 2 == 1,
    ensures
        calc_expr_tail(ts, q).ops == left_fold_ops(ts).subrange(q, ts.len() as int),
        calc_expr_tail(ts, q).pos == ts.len(),
        calc_expr_tail(ts, q).error is None,
    decreases ts.len() - q,
{
    if q < ts.len() {
        assert(level_operator(ts[q], true));
        lemma_number_term(ts, q + 1);
        lemma_additive_tail(ts, q + 2);
        assert(calc_expr_tail(ts, q).ops =~= left_fold_ops(ts).subrange(q, ts.len() as int));
    } else {
        assert(left_fold_ops(ts).subrange(q, ts.len() as int) =~= Seq::<CalcOp>::empty());
    }
}

proof fn lemma_multiplicative_tail(ts: Seq<Lexeme>, q: int)
    requires
        is_chain(ts, false),
        1 <= q <= ts.len(),
        q % 2 == 1,
    ensures
        calc_term_tail(ts, q).ops == left_fold_ops(ts).subrange(q, ts.len() as int),
        calc_term_tail(ts, q).pos == ts.len(),
        calc_term_tail(ts, q).error is None,
    decreases ts.len() - q,
{
    if q < ts.len() {
        assert(level_operator(ts[q], false));
        assert(ts[q + 1] is Number);
        lemma_number_factor(ts, q + 1);
        lemma_multiplicative_tail(ts, q + 2);
        assert(calc_term_tail(ts, q).ops =~= left_fold_ops(ts).subrange(q, ts.len() as int));
    } else {
        assert(left_fold_ops(ts).subrange(q, ts.len() as int) =~= Seq::<CalcOp>::empty());
    }
}

/// Additions and subtractions associate to the left: the tokens `n0 o1 n1 ... ok nk` with each
/// `oi` a `+` or `-` are read as `((n0 o1 n1) o2 n2) ...`, with no error.
pub proof fn lemma_sums_fold_left(ts: Seq<Lexeme>)
    requires
        is_chain(ts, true),
    ensures
        calc_program(ts) == (left_fold_ops(ts), Option::<CalcSyntaxError>::None),
{
    lemma_number_term(ts, 0);
    lemma_additive_tail(ts, 1);
    assert(calc_expr(ts, 0).ops =~= left_fold_ops(ts));
}

/// Multiplications and divisions associate to the left: the tokens `n0 o1 n1 ... ok nk` with
/// each `oi` a `*` or `/` are read as `((n0 o1 n1) o2 n2) ...`, with no error.
pub proof fn lemma_products_fold_left(ts: Seq<Lexeme>)
    requires
        is_chain(ts, false),
    ensures
        calc_program(ts) == (left_fold_ops(ts), Option::<CalcSyntaxError>::None),
{
    assert(ts[0] is Number);
    lemma_number_factor(ts, 0);
    lemma_multiplicative_tail(ts, 1);
    assert(calc_term(ts, 0).ops =~= left_fold_ops(ts));
    assert(calc_expr(ts, 0).ops =~= left_fold_ops(ts));
}

/// `ts[lo..hi]` is `n0 o1 n1 o2 ... ok nk`: numbers and binary operators (`+ - * /`),
/// alternating, starting and ending with a number; it is followed by `)` or by the end.
pub open spec fn is_flat(ts: Seq<Lexeme>, lo: int, hi: int) -> bool {
    &&& 0 <= lo < hi <= ts.len()
    &&& (hi - lo) % 2 == 1
    &&& forall|i: int|
        lo <= i < hi ==> if (i - lo) % 2 == 0 {
            #[trigger] ts[i] is Number
        } else {
            level_operator(ts[i], true) || level_operator(ts[i], false)
        }
    &&& hi == ts.len() || ts[hi] is RParen
}

/// Where the product that starts with the number at `p` ends, before `hi`: at the first `+`,
/// `-` or `hi` after it.
pub open spec fn product_end(ts: Seq<Lexeme>, p: int, hi: int) -> int
    decreases hi - p,
{
    if p + 1 >= hi || level_operator(ts[p + 1], true) {
        p + 1
    } else {
        product_end(ts, p + 2, hi)
    }
}

/// The product `ts[p..e]` evaluated from left to right: its first number, then each further
/// number followed by the `*` or `/` written before it.
pub open spec fn product_ops(ts: Seq<Lexeme>, p: int, e: int) -> Seq<CalcOp> {
    Seq::new(
        (e - p) as nat,
        |j: int|
            if j == 0 {
                CalcOp::Num(p as usize)
            } else if j % 2 == 1 {
                CalcOp::Num((p + j + 1) as usize)
            } else {
                binary_op(ts[p + j - 1])
            },
    )
}

/// The products after the `+` or `-` at `q`, up to `hi`, each evaluated and then added to or
/// subtracted from what came before it.
pub open spec fn products_after(ts: Seq<Lexeme>, q: int, hi: int) -> Seq<CalcOp>
    decreases hi - q,
{
    if q < 0 || q + 1 >= hi {
        Seq::empty()
    } else {
        let e = product_end(ts, q + 1, hi);
        if e <= q || e > hi {
            Seq::empty()
        } else {
            product_ops(ts, q + 1, e).push(binary_op(ts[q])) + products_after(ts, e, hi)
        }
    }
}

/// The sum of products `ts[lo..hi]`: its first product, then each further product followed
/// by the `+` or `-` before it.
pub open spec fn sum_of_products_ops(ts: Seq<Lexeme>, lo: int, hi: int) -> Seq<CalcOp> {
    product_ops(ts, lo, product_end(ts, lo, hi)) + products_after(ts, product_end(ts, lo, hi), hi)
}

proof fn lemma_product_end(ts: Seq<Lexeme>, lo: int, hi: int, p: int)
    requires
        is_flat(ts, lo, hi),
        lo <= p < hi,
        (p - lo) % 2 == 0,
    ensures
        p < product_end(ts, p, hi) <= hi,
        (product_end(ts, p, hi) - lo) % 2 == 1,
        product_end(ts, p, hi) == hi || level_operator(ts[product_end(ts, p, hi)], true),
        forall|q: int|
            p < q < product_end(ts, p, hi) && (q - lo) % 2 == 1 ==> level_operator(
                #[trigger] ts[q],
                false,
            ),
    decreases hi - p,
{
    if p + 1 >= hi || level_operator(ts[p + 1], true) {
    } else {
        assert(level_operator(ts[p + 1], false));
        lemma_product_end(ts, lo, hi, p + 2);
    }
}

proof fn lemma_product_tail(ts: Seq<Lexeme>, lo: int, hi: int, p: int, q: int)
    requires
        is_flat(ts, lo, hi),
        lo <= p < hi,
        (p - lo) % 2 == 0,
        p < q <= product_end(ts, p, hi),
        (q - lo) % 2 == 1,
    ensures
        calc_term_tail(ts, q).ops == product_ops(ts, p, product_end(ts, p, hi)).subrange(
            q - p,
            product_end(ts, p, hi) - p,
        ),
        calc_term_tail(ts, q).pos == product_end(ts, p, hi),
        calc_term_tail(ts, q).error is None,
    decreases hi - q,
{
    let e = product_end(ts, p, hi);
    lemma_product_end(ts, lo, hi, p);
    if q < e {
        assert(level_operator(ts[q], false));
        assert(ts[q + 1] is Number);
        lemma_number_factor(ts, q + 1);
        lemma_product_tail(ts, lo, hi, p, q + 2);
        assert(calc_term_tail(ts, q).ops =~= product_ops(ts, p, e).subrange(q - p, e - p));
    } else {
        if q < hi {
            assert(level_operator(ts[q], true));
        }
        assert(product_ops(ts, p, e).subrange(q - p, e - p) =~= Seq::<CalcOp>::empty());
    }
}

proof fn lemma_product_term(ts: Seq<Lexeme>, lo: int, hi: int, p: int)
    requires
        is_flat(ts, lo, hi),
        lo <= p < hi,
        (p - lo) % 2 == 0,
    ensures
        calc_term(ts, p) == (Parsed {
            ops: product_ops(ts, p, product_end(ts, p, hi)),
            pos: product_end(ts, p, hi),
            error: None,
        }),
{
    let e = product_end(ts, p, hi);
    lemma_product_end(ts, lo, hi, p);
    assert(ts[p] is Number);
    lemma_number_factor(ts, p);
    lemma_product_tail(ts, lo, hi, p, p + 1);
    assert(seq![CalcOp::Num(p as usize)] + product_ops(ts, p, e).subrange(1, e - p) =~= product_ops(
        ts,
        p,
        e,
    ));
}

proof fn lemma_sum_tail(ts: Seq<Lexeme>, lo: int, hi: int, q: int)
    requires
        is_flat(ts, lo, hi),
        lo < q <= hi,
        (q - lo) % 2 == 1,
        q == hi || level_operator(ts[q], true),
    ensures
        calc_expr_tail(ts, q).ops == products_after(ts, q, hi),
        calc_expr_tail(ts, q).pos == hi,
        calc_expr_tail(ts, q).error is None,
    decreases hi - q,
{
    if q < hi {
        let e = product_end(ts, q + 1, hi);
        lemma_product_end(ts, lo, hi, q + 1);
        lemma_product_term(ts, lo, hi, q + 1);
        lemma_sum_tail(ts, lo, hi, e);
    }
}

/// An expression `ts[lo..hi]` of numbers and binary operators is read up to `hi` as a sum of
/// products.
proof fn lemma_flat_expr(ts: Seq<Lexeme>, lo: int, hi: int)
    requires
        is_flat(ts, lo, hi),
    ensures
        calc_expr(ts, lo) == (Parsed { ops: sum_of_products_ops(ts, lo, hi), pos: hi, error: None }),
{
    lemma_product_end(ts, lo, hi, lo);
    lemma_product_term(ts, lo, hi, lo);
    lemma_sum_tail(ts, lo, hi, product_end(ts, lo, hi));
}

/// Multiplication and division bind tighter than addition and subtraction, and each level
/// associates to the left: the tokens `n0 o1 n1 ... ok nk` are read as a sum of products,
/// each product evaluated from left to right, then each further product added to or
/// subtracted from what came before it, with no error. For `a + b * c - d` that is
/// `(a + (b * c)) - d`.
pub proof fn lemma_products_before_sums(ts: Seq<Lexeme>)
    requires
        is_flat(ts, 0, ts.len() as int),
    ensures
        calc_program(ts) == (sum_of_products_ops(ts, 0, ts.len() as int), Option::<CalcSyntaxError>::None),
{
    lemma_flat_expr(ts, 0, ts.len() as int);
}

/// Parentheses group: `( e )` is read as `e`, for `e` made of numbers and binary operators.
pub proof fn lemma_parentheses_group(ts: Seq<Lexeme>)
    requires
        ts.len() >= 3,
        ts[0] is LParen,
        is_flat(ts, 1, ts.len() - 1),
    ensures
        calc_program(ts) == (sum_of_products_ops(ts, 1, ts.len() - 1), Option::<CalcSyntaxError>::None),
{
    let n = ts.len() as int;
    lemma_flat_expr(ts, 1, n - 1);
    assert(calc_factor(ts, 0) == (Parsed { ops: sum_of_products_ops(ts, 1, n - 1), pos: n, error: None }));
    assert(calc_term(ts, 0).ops =~= sum_of_products_ops(ts, 1, n - 1));
    assert(calc_expr(ts, 0).ops =~= sum_of_products_ops(ts, 1, n - 1));
}

/// A minus sign in front of a factor negates it after it is evaluated: `-( e )` is `e` then a
/// negation, for `e` made of numbers and binary operators.
pub proof fn lemma_minus_negates_group(ts: Seq<Lexeme>)
    requires
        ts.len() >= 4,
        ts[0] is Minus,
        ts[1] is LParen,
        is_flat(ts, 2, ts.len() - 1),
    ensures
        calc_program(ts) == (
            sum_of_products_ops(ts, 2, ts.len() - 1).push(CalcOp::Neg),
            Option::<CalcSyntaxError>::None,
        ),
{
    let n = ts.len() as int;
    let inner = sum_of_products_ops(ts, 2, n - 1);
    lemma_flat_expr(ts, 2, n - 1);
    assert(calc_factor(ts, 1) == (Parsed { ops: inner, pos: n, error: None }));
    assert(calc_factor(ts, 0) == (Parsed { ops: inner.push(CalcOp::Neg), pos: n, error: None }));
    assert(calc_term(ts, 0).ops =~= inner.push(CalcOp::Neg));
    assert(calc_expr(ts, 0).ops =~= inner.push(CalcOp::Neg));
}

fn append_ops(ops: &mut Vec<CalcOp>, more: Vec<CalcOp>)
    ensures
        final(ops)@ == old(ops)@ + more@,
{
    let mut more = more;
    ops.append(&mut more);
}

fn calc_expr_exec(ts: &Vec<Token>, pos: usize) -> (r: (Vec<CalcOp>, usize, Option<CalcSyntaxError>))
    requires
        pos <= ts.len(),
    ensures
        ({
            let p = calc_expr(lexemes(ts@), pos as int);
            &&& r.0@ == p.ops
            &&& r.1 as int == p.pos
            &&& r.2 == p.error
        }),
    decreases ts.len() - pos, 4int,
{
    let (mut ops, tp, te) = calc_term_exec(ts, pos);
    if te.is_some() || !(pos < tp && tp <= ts.len()) {
        return (ops, tp, te);
    }
    let (rops, rp, re) = calc_expr_tail_exec(ts, tp);
    append_ops(&mut ops, rops);
    (ops, rp, re)
}

fn calc_expr_tail_exec(ts: &Vec<Token>, pos: usize) -> (r: (Vec<CalcOp>, usize, Option<CalcSyntaxError>))
    requires
        pos <= ts.len(),
    ensures
        ({
            let p = calc_expr_tail(lexemes(ts@), pos as int);
            &&& r.0@ == p.ops
            &&& r.1 as int == p.pos
            &&& r.2 == p.error
        }),
    decreases ts.len() - pos, 3int,
{
    if pos < ts.len() && (matches!(ts[pos], Token::Plus) || matches!(ts[pos], Token::Minus)) {
        let op = if matches!(ts[pos], Token::Plus) {
            CalcOp::Add
        } else {
            CalcOp::Sub
        };
        let (mut ops, tp, te) = calc_term_exec(ts, pos + 1);
        if te.is_some() {
            return (ops, tp, te);
        }
        ops.push(op);
        if pos < tp && tp <= ts.len() {
            let (rops, rp, re) = calc_expr_tail_exec(ts, tp);
            append_ops(&mut ops, rops);
            (ops, rp, re)
        } else {
            (ops, tp, None)
        }
    } else {
        (Vec::new(), pos, None)
    }
}

fn calc_term_exec(ts: &Vec<Token>, pos: usize) -> (r: (Vec<CalcOp>, usize, Option<CalcSyntaxError>))
    requires
        pos <= ts.len(),
    ensures
        ({
            let p = calc_term(lexemes(ts@), pos as int);
            &&& r.0@ == p.ops
            &&& r.1 as int == p.pos
            &&& r.2 == p.error
        }),
    decreases ts.len() - pos, 2int,
{
    let (mut ops, fp, fe) = calc_factor_exec(ts, pos);
    if fe.is_some() || !(pos < fp && fp <= ts.len()) {
        return (ops, fp, fe);
    }
    let (rops, rp, re) = calc_term_tail_exec(ts, fp);
    append_ops(&mut ops, rops);
    (ops, rp, re)
}

fn calc_term_tail_exec(ts: &Vec<Token>, pos: usize) -> (r: (Vec<CalcOp>, usize, Option<CalcSyntaxError>))
    requires
        pos <= ts.len(),
    ensures
        ({
            let p = calc_term_tail(lexemes(ts@), pos as int);
            &&& r.0@ == p.ops
            &&& r.1 as int == p.pos
            &&& r.2 == p.error
        }),
    decreases ts.len() - pos, 1int,
{
    if pos < ts.len() && (matches!(ts[pos], Token::Mul) || matches!(ts[pos], Token::Div)) {
        let op = if matches!(ts[pos], Token::Mul) {
            CalcOp::Mul
        } else {
            CalcOp::Div
        };
        let (mut ops, fp, fe) = calc_factor_exec(ts, pos + 1);
        if fe.is_some() {
            return (ops, fp, fe);
        }
        ops.push(op);
        if pos < fp && fp <= ts.len() {
            let (rops, rp, re) = calc_term_tail_exec(ts, fp);
            append_ops(&mut ops, rops);
            (ops, rp, re)
        } else {
            (ops, fp, None)
        }
    } else {
        (Vec::new(), pos, None)
    }
}

fn calc_factor_exec(ts: &Vec<Token>, pos: usize) -> (r: (Vec<CalcOp>, usize, Option<CalcSyntaxError>))
    requires
        pos <= ts.len(),
    ensures
        ({
            let p = calc_factor(lexemes(ts@), pos as int);
            &&& r.0@ == p.ops
            &&& r.1 as int == p.pos
            &&& r.2 == p.error
        }),
    decreases ts.len() - pos, 0int,
{
    if pos >= ts.len() {
        return (Vec::new(), pos, Some(CalcSyntaxError::End));
    }
    match &ts[pos] {
        Token::Number(_) => {
            let mut ops: Vec<CalcOp> = Vec::new();
            ops.push(CalcOp::Num(pos));
            (ops, pos + 1, None)
        },
        Token::LParen => {
            let (ops, ep, ee) = calc_expr_exec(ts, pos + 1);
            if ee.is_some() {
                (ops, ep, ee)
            } else if ep < ts.len() && matches!(ts[ep], Token::RParen) {
                (ops, ep + 1, None)
            } else {
                (ops, ep, Some(CalcSyntaxError::MissingParen))
            }
        },
        Token::Minus => {
            let (mut ops, fp, fe) = calc_factor_exec(ts, pos + 1);
            if fe.is_some() {
                (ops, fp, fe)
            } else {
                ops.push(CalcOp::Neg);
                (ops, fp, None)
            }
        },
        _ => (Vec::new(), pos, Some(CalcSyntaxError::Unexpected(pos))),
    }
}

/// Reads the tokens of an expression: the operations to apply, in the order the grammar
/// applies them, and the syntax error met after them, if any (a token left over after the
/// expression is unexpected).
pub fn parse_tokens(ts: &Vec<Token>) -> (r: (Vec<CalcOp>, Option<CalcSyntaxError>))
    ensures
        (r.0@, r.1) == calc_program(lexemes(ts@)),
{
    let (ops, p, e) = calc_expr_exec(ts, 0);
    if e.is_none() && p < ts.len() {
        (ops, Some(CalcSyntaxError::Unexpected(p)))
    } else {
        (ops, e)
    }
}

} // verus!
