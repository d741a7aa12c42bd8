use hybrid_collections::expr;
use hybrid_collections::expr::{eval, Expr};

#[test]
fn test_cases() {
    let x: i64 = 42;
    assert_eq!(eval(&Expr::Const(5), x), Some(5));
    assert_eq!(eval(&Expr::Var, x), Some(42));
    assert_eq!(eval(&expr::sub(Expr::Var, Expr::Const(5)), x), Some(37));
    assert_eq!(eval(&expr::mul(Expr::Var, Expr::Const(2)), x), Some(84));
    assert_eq!(eval(&expr::div(Expr::Var, Expr::Const(2)), x), Some(21));
    assert_eq!(eval(&expr::div(Expr::Var, Expr::Const(0)), x), None);
    assert_eq!(eval(&expr::sub(Expr::Var, Expr::Var), x), Some(0));
    assert_eq!(
        eval(&expr::add(expr::sub(Expr::Var, Expr::Const(5)), Expr::Const(5)), x),
        Some(42)
    );
    assert_eq!(
        eval(&Expr::Summation(vec![Expr::Var, Expr::Const(1)]), x),
        Some(43)
    );
}

#[test]
fn division_truncates_toward_zero() {
    let x: i64 = 0;
    assert_eq!(eval(&expr::div(Expr::Const(-7), Expr::Const(2)), x), Some(-3));
    assert_eq!(eval(&expr::div(Expr::Const(7), Expr::Const(-2)), x), Some(-3));
    assert_eq!(eval(&expr::div(Expr::Const(-7), Expr::Const(-2)), x), Some(3));
    assert_eq!(eval(&expr::div(Expr::Const(7), Expr::Const(2)), x), Some(3));
}

#[test]
fn summation_sums_and_propagates_errors() {
    let x: i64 = 10;
    assert_eq!(eval(&Expr::Summation(vec![]), x), Some(0));
    assert_eq!(
        eval(
            &Expr::Summation(vec![Expr::Var, Expr::Const(1), Expr::Const(2)]),
            x
        ),
        Some(13)
    );
    assert_eq!(
        eval(
            &Expr::Summation(vec![
                Expr::Const(1),
                expr::div(Expr::Const(1), Expr::Const(0)),
            ]),
            x
        ),
        None
    );
}

#[test]
fn division_by_zero_stops_before_dividend() {
    let x: i64 = 5;
    let dividend = expr::div(Expr::Const(1), Expr::Const(0));
    assert_eq!(eval(&expr::div(dividend, Expr::Const(0)), x), None);
}
