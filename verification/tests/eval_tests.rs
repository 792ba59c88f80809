//! Tests for the evaluator: three-valued logic, arithmetic and error
//! behavior, the keyed digests, constant-time comparisons, LIKE matching
//! and the filter classifier.

use scalar_expr::ScalarType;
use scalar_expr::datum::Datum;
use scalar_expr::error::EvalError;
use scalar_expr::filter::FilterCharacteristics;
use scalar_expr::func::{BinaryFunc, UnaryFunc, VariadicFunc};
use scalar_expr::scalar::MirScalarExpr;

fn b(v: Option<bool>) -> MirScalarExpr {
    match v {
        Some(true) => MirScalarExpr::literal_true(),
        Some(false) => MirScalarExpr::literal_false(),
        None => MirScalarExpr::literal_null(ScalarType::Bool),
    }
}

fn datum_of(v: Option<bool>) -> Datum {
    match v {
        Some(true) => Datum::True,
        Some(false) => Datum::False,
        None => Datum::Null,
    }
}

#[test]
fn three_valued_truth_tables() {
    let inputs = [Some(true), Some(false), None];
    let empty: Vec<Datum> = Vec::new();
    for &p in &inputs {
        for &q in &inputs {
            let anded = b(p).and(b(q)).eval(&empty).unwrap();
            let expected_and = match (p, q) {
                (Some(false), _) | (_, Some(false)) => Datum::False,
                (None, _) | (_, None) => Datum::Null,
                _ => Datum::True,
            };
            assert!(anded.eq_datum(&expected_and));
            let ored = b(p).or(b(q)).eval(&empty).unwrap();
            let expected_or = match (p, q) {
                (Some(true), _) | (_, Some(true)) => Datum::True,
                (None, _) | (_, None) => Datum::Null,
                _ => Datum::False,
            };
            assert!(ored.eq_datum(&expected_or));
        }
    }
}

#[test]
fn errors_surface_only_without_short_circuit() {
    let empty: Vec<Datum> = Vec::new();
    let err = || MirScalarExpr::literal(Err(EvalError::DivisionByZero), ScalarType::Bool);
    // FALSE wins over an error in AND; TRUE wins in OR.
    assert!(b(Some(false)).and(err()).eval(&empty).unwrap().eq_datum(&Datum::False));
    assert!(b(Some(true)).or(err()).eval(&empty).unwrap().eq_datum(&Datum::True));
    // Otherwise the error surfaces.
    assert!(b(Some(true)).and(err()).eval(&empty).is_err());
    assert!(b(None).and(err()).eval(&empty).is_err());
    assert!(b(Some(false)).or(err()).eval(&empty).is_err());
    // Among several errors the largest is reported, whatever the order.
    let e1 = || MirScalarExpr::literal(Err(EvalError::DivisionByZero), ScalarType::Bool);
    let e2 = || MirScalarExpr::literal(Err(EvalError::NumericFieldOverflow), ScalarType::Bool);
    let lhs = e1().and(e2()).eval(&empty).unwrap_err();
    let rhs = e2().and(e1()).eval(&empty).unwrap_err();
    assert!(lhs.eq_err(&EvalError::NumericFieldOverflow));
    assert!(rhs.eq_err(&EvalError::NumericFieldOverflow));
}

#[test]
fn arithmetic_and_comparisons() {
    let empty: Vec<Datum> = Vec::new();
    let i64lit = |v: i64| MirScalarExpr::literal_ok(Datum::Int64(v), ScalarType::Int64);
    let add = i64lit(20).call_binary(i64lit(22), BinaryFunc::AddInt64);
    assert!(add.eval(&empty).unwrap().eq_datum(&Datum::Int64(42)));
    // Division truncates toward zero.
    let division = i64lit(-7).call_binary(i64lit(2), BinaryFunc::DivInt64);
    assert!(division.eval(&empty).unwrap().eq_datum(&Datum::Int64(-3)));
    // Overflow reports a numeric error.
    let overflow = i64lit(i64::MAX).call_binary(i64lit(1), BinaryFunc::AddInt64);
    assert!(overflow.eval(&empty).unwrap_err().eq_err(&EvalError::NumericFieldOverflow));
    // A narrowing cast out of range names the value.
    let narrow = i64lit(100000).call_unary(UnaryFunc::CastInt64ToInt16);
    assert!(narrow.eval(&empty).unwrap_err().eq_err(&EvalError::Int16OutOfRange(100000)));
    // Comparisons answer booleans, and NULL propagates.
    let lt = i64lit(1).call_binary(i64lit(2), BinaryFunc::Lt);
    assert!(lt.eval(&empty).unwrap().eq_datum(&Datum::True));
    let null_cmp = MirScalarExpr::literal_null(ScalarType::Int64).call_binary(
        i64lit(2),
        BinaryFunc::Lt,
    );
    assert!(null_cmp.eval(&empty).unwrap().eq_datum(&Datum::Null));
}

#[test]
fn columns_and_conditionals() {
    let row = vec![Datum::Int64(7), Datum::Null];
    let taken = MirScalarExpr::literal_true().if_then_else(
        MirScalarExpr::column(0),
        MirScalarExpr::literal(Err(EvalError::DivisionByZero), ScalarType::Int64),
    );
    // The untaken branch is never evaluated.
    assert!(taken.eval(&row).unwrap().eq_datum(&Datum::Int64(7)));
    // A NULL condition selects the ELSE branch.
    let null_cond = MirScalarExpr::literal_null(ScalarType::Bool).if_then_else(
        MirScalarExpr::column(1),
        MirScalarExpr::column(0),
    );
    assert!(null_cond.eval(&row).unwrap().eq_datum(&Datum::Int64(7)));
}

#[test]
fn coalesce_greatest_least_error_if_null() {
    let empty: Vec<Datum> = Vec::new();
    let i64lit = |v: i64| MirScalarExpr::literal_ok(Datum::Int64(v), ScalarType::Int64);
    let null = || MirScalarExpr::literal_null(ScalarType::Int64);
    let call = |f: VariadicFunc, exprs: Vec<MirScalarExpr>| MirScalarExpr::CallVariadic {
        func: f,
        exprs,
    };
    let c = call(VariadicFunc::Coalesce, vec![null(), i64lit(3), i64lit(4)]);
    assert!(c.eval(&empty).unwrap().eq_datum(&Datum::Int64(3)));
    let g = call(VariadicFunc::Greatest, vec![i64lit(3), null(), i64lit(9)]);
    assert!(g.eval(&empty).unwrap().eq_datum(&Datum::Int64(9)));
    let l = call(VariadicFunc::Least, vec![i64lit(3), null(), i64lit(9)]);
    assert!(l.eval(&empty).unwrap().eq_datum(&Datum::Int64(3)));
    let msg = MirScalarExpr::literal_ok(
        Datum::Str("must not be null".to_string()),
        ScalarType::String,
    );
    let e = call(VariadicFunc::ErrorIfNull, vec![null(), msg]);
    assert!(e.eval(&empty).unwrap_err().eq_err(&EvalError::IfNullError(
        "must not be null".to_string(),
    )));
}

#[test]
fn keyed_digests() {
    let empty: Vec<Datum> = Vec::new();
    let s = |v: &str| MirScalarExpr::literal_ok(Datum::Str(v.to_string()), ScalarType::String);
    let call = |algo: &str| MirScalarExpr::CallVariadic {
        func: VariadicFunc::HmacString,
        exprs: vec![s("message"), s("key"), s(algo)],
    };
    // Tag lengths follow the algorithm.
    for (algo, len) in [
        ("md5", 16),
        ("sha1", 20),
        ("sha224", 28),
        ("sha256", 32),
        ("sha384", 48),
        ("sha512", 64),
    ] {
        match call(algo).eval(&empty).unwrap() {
            Datum::Bytes(tag) => assert_eq!(tag.len(), len),
            _ => panic!("expected a byte tag"),
        }
    }
    // The same inputs give the same tag.
    let one = call("sha256").eval(&empty).unwrap();
    let two = call("sha256").eval(&empty).unwrap();
    assert!(one.eq_datum(&two));
    // An unknown algorithm is reported by name.
    let bad = call("sha3").eval(&empty).unwrap_err();
    assert!(bad.eq_err(&EvalError::InvalidHashAlgorithm("sha3".to_string())));
}

#[test]
fn constant_time_and_like() {
    let empty: Vec<Datum> = Vec::new();
    let s = |v: &str| MirScalarExpr::literal_ok(Datum::Str(v.to_string()), ScalarType::String);
    let cteq = s("secret").call_binary(s("secret"), BinaryFunc::ConstantTimeEqStr);
    assert!(cteq.eval(&empty).unwrap().eq_datum(&Datum::True));
    let ctneq = s("secret").call_binary(s("Secret"), BinaryFunc::ConstantTimeEqStr);
    assert!(ctneq.eval(&empty).unwrap().eq_datum(&Datum::False));

    let like = |text: &str, pat: &str, ci: bool| {
        s(text)
            .call_binary(s(pat), BinaryFunc::IsLikeMatch { case_insensitive: ci })
            .eval(&empty)
            .unwrap()
    };
    assert!(like("xyzzy", "x%", false).eq_datum(&Datum::True));
    assert!(like("yzzyx", "x%", false).eq_datum(&Datum::False));
    assert!(like("abc", "a_c", false).eq_datum(&Datum::True));
    assert!(like("ABC", "a_c", false).eq_datum(&Datum::False));
    assert!(like("ABC", "a_c", true).eq_datum(&Datum::True));
}

#[test]
fn test_could_error() {
    for func in [UnaryFunc::IsNull, UnaryFunc::Not] {
        assert!(!func.could_error());
    }
    assert!(!BinaryFunc::IsLikeMatch { case_insensitive: false }.could_error());
    assert!(!BinaryFunc::Eq.could_error());
    assert!(UnaryFunc::CastInt64ToInt16.could_error());
}

#[test]
fn scenario_filter_classification() {
    // Conjuncts: a = 5, b LIKE 'x%', c IS NULL.
    let five = MirScalarExpr::literal_ok(Datum::Int64(5), ScalarType::Int64);
    let pattern = MirScalarExpr::literal_ok(Datum::Str("x%".to_string()), ScalarType::String);
    let conjuncts = vec![
        MirScalarExpr::column(0).call_binary(five, BinaryFunc::Eq),
        MirScalarExpr::column(1).call_binary(
            pattern,
            BinaryFunc::IsLikeMatch { case_insensitive: false },
        ),
        MirScalarExpr::column(2).call_is_null(),
    ];
    let fc = FilterCharacteristics::filter_characteristics(&conjuncts);
    assert!(fc.literal_equality);
    assert!(fc.like);
    assert!(fc.is_null);
    assert_eq!(fc.literal_inequality, 0);
    assert!(fc.any_filter);
    let (num, den) = fc.worst_case_scaling_factor();
    assert_eq!((num, den), (1, 100));
    assert!((num as f64 / den as f64 - 0.01).abs() < 1e-9);
    assert_eq!(fc.explain(), "elnf");
}
