//! Tests for the simplifier: coalesce folding, undistribution, cast
//! inversion and the conditional rules.

use scalar_expr::ScalarType;
use scalar_expr::datum::Datum;
use scalar_expr::error::EvalError;
use scalar_expr::func::{BinaryFunc, UnaryFunc, VariadicFunc};
use scalar_expr::scalar::MirScalarExpr;

fn int64_types() -> Vec<scalar_expr::ColumnType> {
    vec![
        ScalarType::Int64.nullable(true),
        ScalarType::Int64.nullable(true),
        ScalarType::Int64.nullable(false),
    ]
}

fn lit(i: i64) -> MirScalarExpr {
    MirScalarExpr::literal_ok(Datum::Int64(i), ScalarType::Int64)
}

fn null() -> MirScalarExpr {
    MirScalarExpr::literal_null(ScalarType::Int64)
}

fn err(e: EvalError) -> MirScalarExpr {
    MirScalarExpr::literal(Err(e), ScalarType::Int64)
}

fn col(i: usize) -> MirScalarExpr {
    MirScalarExpr::column(i)
}

fn coalesce(exprs: Vec<MirScalarExpr>) -> MirScalarExpr {
    MirScalarExpr::CallVariadic { func: VariadicFunc::Coalesce, exprs }
}

#[test]
fn test_reduce() {
    let relation_type = int64_types();
    let test_cases = vec![
        (coalesce(vec![lit(1)]), lit(1)),
        (coalesce(vec![lit(1), lit(2)]), lit(1)),
        (coalesce(vec![null(), lit(2), null()]), lit(2)),
        (
            coalesce(vec![null(), col(0), null(), col(1), lit(2), lit(3)]),
            coalesce(vec![col(0), col(1), lit(2)]),
        ),
        (
            coalesce(vec![col(0), col(2), col(1)]),
            coalesce(vec![col(0), col(2)]),
        ),
        (coalesce(vec![lit(1), err(EvalError::DivisionByZero)]), lit(1)),
        (
            coalesce(vec![
                null(),
                err(EvalError::DivisionByZero),
                err(EvalError::NumericFieldOverflow),
            ]),
            err(EvalError::DivisionByZero),
        ),
    ];
    for (input, expected) in test_cases {
        let mut actual = input.duplicate();
        actual.reduce(&relation_type);
        assert!(actual.eq_expr(&expected), "reduced form did not match");
    }
}

#[test]
fn scenario_undistribution() {
    // (a AND b) OR (a AND c) simplifies to a AND (b OR c).
    let types = vec![
        ScalarType::Bool.nullable(true),
        ScalarType::Bool.nullable(true),
        ScalarType::Bool.nullable(true),
    ];
    let a = || col(0);
    let b = || col(1);
    let c = || col(2);
    let mut e = a().and(b()).or(a().and(c()));
    e.reduce(&types);
    let expected = a().and(b().or(c()));
    assert!(e.eq_expr(&expected));
}

#[test]
fn scenario_cast_inversion() {
    // cast_int32_to_int16(#0) = 5 moves the cast to the literal side.
    let five16 = MirScalarExpr::literal_ok(Datum::Int16(5), ScalarType::Int16);
    let e = col(0)
        .call_unary(UnaryFunc::CastInt32ToInt16)
        .call_binary(five16, BinaryFunc::Eq);
    let inverted = e.invert_casts_on_expr_eq_literal();
    let expected = MirScalarExpr::literal_ok(Datum::Int32(5), ScalarType::Int32)
        .call_binary(col(0), BinaryFunc::Eq);
    assert!(inverted.eq_expr(&expected));
    assert!(!e.impossible_literal_equality_because_types());

    // cast_int16_to_int32(#0) = 1000000 can never hold.
    let big32 = MirScalarExpr::literal_ok(Datum::Int32(1000000), ScalarType::Int32);
    let impossible = col(0)
        .call_unary(UnaryFunc::CastInt16ToInt32)
        .call_binary(big32, BinaryFunc::Eq);
    assert!(impossible.impossible_literal_equality_because_types());
}

#[test]
fn reduce_folds_constants() {
    let types = int64_types();
    let mut e = lit(2).call_binary(lit(3), BinaryFunc::AddInt64);
    e.reduce(&types);
    assert!(e.eq_expr(&lit(5)));

    let mut division = lit(7).call_binary(lit(0), BinaryFunc::DivInt64);
    division.reduce(&types);
    assert!(division.eq_expr(&err(EvalError::DivisionByZero)));
}

#[test]
fn reduce_boolean_rules() {
    let types = vec![ScalarType::Bool.nullable(true), ScalarType::Bool.nullable(true)];
    // Double negation cancels.
    let mut e = col(0).not().not();
    e.reduce(&types);
    assert!(e.eq_expr(&col(0)));

    // A negated comparison becomes the opposite comparison.
    let mut cmp = col(0).call_binary(col(1), BinaryFunc::Lt).not();
    cmp.reduce(&types);
    let expected = col(0).call_binary(col(1), BinaryFunc::Gte);
    assert!(cmp.eq_expr(&expected));

    // De Morgan's law pushes NOT inside AND.
    let mut dem = col(0).and(col(1)).not();
    dem.reduce(&types);
    let expected = col(0).not().or(col(1).not());
    assert!(dem.eq_expr(&expected));

    // The zero of AND decides the call.
    let mut zero = col(0).and(MirScalarExpr::literal_false());
    zero.reduce(&types);
    assert!(zero.eq_expr(&MirScalarExpr::literal_false()));

    // The unit of AND drops out.
    let mut unit = col(0).and(MirScalarExpr::literal_true());
    unit.reduce(&types);
    assert!(unit.eq_expr(&col(0)));

    // Repeated operands collapse.
    let mut dup = col(0).and(col(0));
    dup.reduce(&types);
    assert!(dup.eq_expr(&col(0)));
}

#[test]
fn reduce_conditionals() {
    let types = int64_types();
    let mut taken = MirScalarExpr::literal_true().if_then_else(col(0), col(1));
    taken.reduce(&types);
    assert!(taken.eq_expr(&col(0)));

    let mut dropped = MirScalarExpr::literal_false().if_then_else(col(0), col(1));
    dropped.reduce(&types);
    assert!(dropped.eq_expr(&col(1)));

    let mut same = col(0).call_is_null().if_then_else(col(1), col(1));
    same.reduce(&types);
    assert!(same.eq_expr(&col(1)));
}

#[test]
fn reduce_is_null_on_nonnullable() {
    let types = int64_types();
    let mut e = col(2).call_is_null();
    e.reduce(&types);
    assert!(e.eq_expr(&MirScalarExpr::literal_false()));
}
