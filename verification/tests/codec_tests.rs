//! Tests for the interchange format: decoding an encoding yields the value
//! back, expression by expression.

use scalar_expr::ScalarType;
use scalar_expr::datum::Datum;
use scalar_expr::error::EvalError;
use scalar_expr::func::{BinaryFunc, UnaryFunc, UnmaterializableFunc, VariadicFunc};
use scalar_expr::scalar::MirScalarExpr;

fn roundtrips(e: &MirScalarExpr) {
    let bytes = e.encode();
    let (back, consumed) = MirScalarExpr::decode_at(&bytes, 0).expect("decoding must succeed");
    assert_eq!(consumed, bytes.len());
    assert!(back.eq_expr(e), "the decoded expression must equal the encoded one");
}

#[test]
fn roundtrip_leaves() {
    roundtrips(&MirScalarExpr::column(7));
    roundtrips(&MirScalarExpr::named_column(3, "name".to_string()));
    roundtrips(&MirScalarExpr::literal_true());
    roundtrips(&MirScalarExpr::literal_false());
    roundtrips(&MirScalarExpr::literal_null(ScalarType::Bytes));
    roundtrips(&MirScalarExpr::literal_ok(Datum::Int16(-5), ScalarType::Int16));
    roundtrips(&MirScalarExpr::literal_ok(Datum::Int32(123456), ScalarType::Int32));
    roundtrips(&MirScalarExpr::literal_ok(Datum::Int64(i64::MIN), ScalarType::Int64));
    roundtrips(&MirScalarExpr::literal_ok(
        Datum::Str("x% _ und sonst".to_string()),
        ScalarType::String,
    ));
    roundtrips(&MirScalarExpr::literal_ok(Datum::Bytes(vec![0, 255, 3]), ScalarType::Bytes));
    roundtrips(&MirScalarExpr::literal_ok(Datum::Dummy, ScalarType::Bool));
    roundtrips(&MirScalarExpr::CallUnmaterializable(UnmaterializableFunc::MzVersionNum));
}

#[test]
fn roundtrip_errors() {
    let errors = vec![
        EvalError::DivisionByZero,
        EvalError::NumericFieldOverflow,
        EvalError::Int16OutOfRange(100000),
        EvalError::Int32OutOfRange(-1),
        EvalError::Int64OutOfRange(i64::MAX),
        EvalError::InvalidBase64EndSequence,
        EvalError::InvalidHashAlgorithm("sha3".to_string()),
        EvalError::LikeEscapeTooLong,
        EvalError::IncompatibleArrayDimensions { dims: None },
        EvalError::IncompatibleArrayDimensions { dims: Some((2, 3)) },
        EvalError::MustNotBeNull("that".to_string()),
        EvalError::IfNullError("oh".to_string()),
        EvalError::Internal("internal".to_string()),
    ];
    for e in errors {
        roundtrips(&MirScalarExpr::literal(Err(e), ScalarType::Int64));
    }
}

#[test]
fn roundtrip_calls() {
    let five = || MirScalarExpr::literal_ok(Datum::Int64(5), ScalarType::Int64);
    roundtrips(&MirScalarExpr::column(0).call_unary(UnaryFunc::CastInt64ToInt16));
    roundtrips(&MirScalarExpr::column(0).call_binary(five(), BinaryFunc::Eq));
    roundtrips(&MirScalarExpr::column(0).call_binary(
        five(),
        BinaryFunc::IsLikeMatch { case_insensitive: true },
    ));
    roundtrips(&MirScalarExpr::CallVariadic {
        func: VariadicFunc::Coalesce,
        exprs: vec![MirScalarExpr::column(0), five()],
    });
    roundtrips(&MirScalarExpr::CallVariadic { func: VariadicFunc::And, exprs: vec![] });
    roundtrips(
        &MirScalarExpr::column(0)
            .call_is_null()
            .if_then_else(five(), MirScalarExpr::column(1))
            .not()
            .or(MirScalarExpr::column(2).and(MirScalarExpr::literal_true())),
    );
}

#[test]
fn decode_rejects_garbage() {
    assert!(MirScalarExpr::decode_at(&vec![], 0).is_none());
    assert!(MirScalarExpr::decode_at(&vec![99], 0).is_none());
    assert!(MirScalarExpr::decode_at(&vec![0, 1, 2], 0).is_none());
    let mut truncated = MirScalarExpr::column(7).encode();
    truncated.pop();
    assert!(MirScalarExpr::decode_at(&truncated, 0).is_none());
}
