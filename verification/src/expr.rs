//! An abstract syntax tree for small integer expressions and its evaluator.
//! Division by zero is reported as `None`; every other operation is total on
//! the inputs admitted by `eval`'s precondition.

use vstd::prelude::*;

verus! {

/// An arithmetic expression over one variable.
#[derive(PartialEq, Debug)]
pub enum Expr {
    Const(i64),
    Add(Box<Expr>, Box<Expr>),
    Sub(Box<Expr>, Box<Expr>),
    Mul(Box<Expr>, Box<Expr>),
    Div(Box<Expr>, Box<Expr>),
    Var,
    Summation(Vec<Expr>),
}

/// Integer division rounding toward zero, as the `/` operator of the
/// machine integers behaves (mathematical `/` rounds toward negative
/// infinity for mixed signs).
pub open spec fn div_trunc(a: int, b: int) -> int
    recommends
        b != 0,
{
    if a == 0 {
        0
    } else if a > 0 && b > 0 {
        a / b
    } else if a < 0 && b < 0 {
        (a * -1) / (b * -1)
    } else if a < 0 {
        ((a * -1) / b) * -1
    } else {
        (a / (b * -1)) * -1
    }
}

/// The mathematical meaning of an expression: `None` exactly when some
/// division by zero is reached, in the evaluator's left-to-right order.
pub open spec fn eval_spec(e: Expr, var: int) -> Option<int>
    decreases e,
{
    match e {
        Expr::Const(k) => Some(k as int),
        Expr::Var => Some(var),
        Expr::Add(l, r) => match eval_spec(*l, var) {
            Some(a) => match eval_spec(*r, var) {
                Some(b) => Some(a + b),
                None => None,
            },
            None => None,
        },
        Expr::Sub(l, r) => match eval_spec(*l, var) {
            Some(a) => match eval_spec(*r, var) {
                Some(b) => Some(a - b),
                None => None,
            },
            None => None,
        },
        Expr::Mul(l, r) => match eval_spec(*l, var) {
            Some(a) => match eval_spec(*r, var) {
                Some(b) => Some(a * b),
                None => None,
            },
            None => None,
        },
        Expr::Div(l, r) => match eval_spec(*r, var) {
            Some(b) => if b == 0 {
                None
            } else {
                match eval_spec(*l, var) {
                    Some(a) => Some(div_trunc(a, b)),
                    None => None,
                }
            },
            None => None,
        },
        Expr::Summation(es) => sum_spec(es@, var, 0),
    }
}

/// Folds the evaluator over a list of summands, left to right, starting
/// from the partial sum `acc`.
pub open spec fn sum_spec(es: Seq<Expr>, var: int, acc: int) -> Option<int>
    decreases es,
{
    if es.len() == 0 {
        Some(acc)
    } else {
        match eval_spec(es[0], var) {
            Some(v) => sum_spec(es.drop_first(), var, acc + v),
            None => None,
        }
    }
}

/// Every intermediate value the evaluator computes on `e`, in its
/// left-to-right order and skipping subterms it never reaches, stays within
/// the machine integer range.
pub open spec fn eval_fits(e: Expr, var: int) -> bool
    decreases e,
{
    match e {
        Expr::Const(_) => true,
        Expr::Var => true,
        Expr::Add(l, r) => eval_fits(*l, var) && (eval_spec(*l, var) matches Some(a) ==> eval_fits(
            *r,
            var,
        ) && (eval_spec(*r, var) matches Some(b) ==> i64::MIN <= a + b <= i64::MAX)),
        Expr::Sub(l, r) => eval_fits(*l, var) && (eval_spec(*l, var) matches Some(a) ==> eval_fits(
            *r,
            var,
        ) && (eval_spec(*r, var) matches Some(b) ==> i64::MIN <= a - b <= i64::MAX)),
        Expr::Mul(l, r) => eval_fits(*l, var) && (eval_spec(*l, var) matches Some(a) ==> eval_fits(
            *r,
            var,
        ) && (eval_spec(*r, var) matches Some(b) ==> i64::MIN <= a * b <= i64::MAX)),
        Expr::Div(l, r) => eval_fits(*r, var) && (eval_spec(*r, var) matches Some(b) ==> (b != 0
            ==> eval_fits(*l, var) && (eval_spec(*l, var) matches Some(a) ==> i64::MIN
            <= div_trunc(a, b) <= i64::MAX))),
        Expr::Summation(es) => sum_fits(es@, var, 0),
    }
}

/// The partial sums of the summation loop stay within the machine integer
/// range, again skipping summands the evaluator never reaches.
pub open spec fn sum_fits(es: Seq<Expr>, var: int, acc: int) -> bool
    decreases es,
{
    es.len() > 0 ==> (eval_fits(es[0], var) && (eval_spec(es[0], var) matches Some(v)
        ==> i64::MIN <= acc + v <= i64::MAX && sum_fits(es.drop_first(), var, acc + v)))
}

/// Evaluates `expr` with `var` as the value of `Expr::Var`. Returns `None`
/// exactly when the evaluation runs into a division by zero.
pub fn eval(expr: &Expr, var: i64) -> (r: Option<i64>)
    requires
        eval_fits(*expr, var as int),
    ensures
        r is None <==> eval_spec(*expr, var as int) is None,
        r matches Some(v) ==> eval_spec(*expr, var as int) == Some(v as int),
    decreases *expr,
{
    match expr {
        Expr::Const(k) => Some(*k),
        Expr::Var => Some(var),
        Expr::Add(l, r) => {
            let a = match eval(l, var) {
                Some(a) => a,
                None => {
                    return None;
                },
            };
            let b = match eval(r, var) {
                Some(b) => b,
                None => {
                    return None;
                },
            };
            Some(a + b)
        },
        Expr::Sub(l, r) => {
            let a = match eval(l, var) {
                Some(a) => a,
                None => {
                    return None;
                },
            };
            let b = match eval(r, var) {
                Some(b) => b,
                None => {
                    return None;
                },
            };
            Some(a - b)
        },
        Expr::Mul(l, r) => {
            let a = match eval(l, var) {
                Some(a) => a,
                None => {
                    return None;
                },
            };
            let b = match eval(r, var) {
                Some(b) => b,
                None => {
                    return None;
                },
            };
            Some(a * b)
        },
        Expr::Div(l, r) => {
            let divisor = match eval(r, var) {
                Some(b) => b,
                None => {
                    return None;
                },
            };
            if divisor == 0 {
                return None;
            }
            let a = match eval(l, var) {
                Some(a) => a,
                None => {
                    return None;
                },
            };
            Some(a.checked_div(divisor).unwrap())
        },
        Expr::Summation(es) => {
            proof {
                assert(es@.skip(0) =~= es@);
            }
            let mut acc: i64 = 0;
            let mut i: usize = 0;
            while i < es.len()
                invariant
                    *expr == Expr::Summation(*es),
                    i <= es@.len(),
                    sum_fits(es@.skip(i as int), var as int, acc as int),
                    sum_spec(es@, var as int, 0) == sum_spec(
                        es@.skip(i as int),
                        var as int,
                        acc as int,
                    ),
                decreases es@.len() - i,
            {
                proof {
                    assert(es@.skip(i as int)[0] == es@[i as int]);
                    assert(decreases_to!(*expr => *es));
                    assert(decreases_to!(*es => es@[i as int]));
                }
                let v = match eval(&es[i], var) {
                    Some(v) => v,
                    None => {
                        return None;
                    },
                };
                proof {
                    assert(es@.skip(i as int).drop_first() =~= es@.skip(i as int + 1));
                }
                acc = acc + v;
                i = i + 1;
            }
            proof {
                assert(es@.skip(es@.len() as int).len() == 0);
            }
            Some(acc)
        },
    }
}

/// Builds the boxed sum of two expressions.
pub fn add(x: Expr, y: Expr) -> (e: Expr)
    ensures
        e matches Expr::Add(l, r) && *l == x && *r == y,
{
    Expr::Add(Box::new(x), Box::new(y))
}

/// Builds the boxed difference of two expressions.
pub fn sub(x: Expr, y: Expr) -> (e: Expr)
    ensures
        e matches Expr::Sub(l, r) && *l == x && *r == y,
{
    Expr::Sub(Box::new(x), Box::new(y))
}

/// Builds the boxed product of two expressions.
pub fn mul(x: Expr, y: Expr) -> (e: Expr)
    ensures
        e matches Expr::Mul(l, r) && *l == x && *r == y,
{
    Expr::Mul(Box::new(x), Box::new(y))
}

/// Builds the boxed quotient of two expressions.
pub fn div(x: Expr, y: Expr) -> (e: Expr)
    ensures
        e matches Expr::Div(l, r) && *l == x && *r == y,
{
    Expr::Div(Box::new(x), Box::new(y))
}

} // verus!

