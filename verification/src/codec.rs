//! A stable, tagged binary interchange format for expressions, values and
//! errors, used to ship plans between processes and to persist them. The
//! contract is the round trip: decoding an encoding yields the value back.

use vstd::prelude::*;

use crate::{ColumnType, ScalarType};
use crate::datum::{Datum, DatumV};
use crate::error::{EvalError, ErrV};
use crate::func::{BinaryFunc, UnaryFunc, UnmaterializableFunc, VariadicFunc};
use crate::scalar::{ExprV, MirScalarExpr, rows_ok, rows_ok_list, lemma_views_of, lemma_rows_ok_list, views_of};
use crate::cmp::{binary_rank, scalar_rank, unary_rank, unmat_rank, variadic_rank};
use crate::trusted::{string_from_utf8, string_to_utf8};

verus! {

/// A 64-bit value as eight little-endian bytes.
pub open spec fn u64_le(x: u64) -> Seq<u8> {
    seq![
        x as u8,
        (x >> 8) as u8,
        (x >> 16) as u8,
        (x >> 24) as u8,
        (x >> 32) as u8,
        (x >> 40) as u8,
        (x >> 48) as u8,
        (x >> 56) as u8,
    ]
}

/// The 64-bit value eight little-endian bytes hold.
pub open spec fn u64_of_le(s: Seq<u8>) -> u64 {
    (s[0] as u64) | (s[1] as u64) << 8 | (s[2] as u64) << 16 | (s[3] as u64) << 24 | (
    s[4] as u64) << 32 | (s[5] as u64) << 40 | (s[6] as u64) << 48 | (s[7] as u64) << 56
}

/// Eight little-endian bytes hold the value they were made from.
pub proof fn lemma_u64_le_roundtrip(x: u64)
    ensures
        u64_of_le(u64_le(x)) == x,
{
    let s = u64_le(x);
    assert((x as u8 as u64) | ((x >> 8) as u8 as u64) << 8 | ((x >> 16) as u8 as u64) << 16 | ((x
        >> 24) as u8 as u64) << 24 | ((x >> 32) as u8 as u64) << 32 | ((x >> 40) as u8 as u64)
        << 40 | ((x >> 48) as u8 as u64) << 48 | ((x >> 56) as u8 as u64) << 56 == x)
        by (bit_vector);
}

/// The encoding of a string: its length, then its UTF-8 bytes.
pub open spec fn enc_str(s: Seq<char>) -> Seq<u8> {
    u64_le(vstd::utf8::encode_utf8(s).len() as u64) + vstd::utf8::encode_utf8(s)
}

/// The encoding of a byte string: its length, then its bytes.
pub open spec fn enc_bytes(b: Seq<u8>) -> Seq<u8> {
    u64_le(b.len() as u64) + b
}

/// The encoding of a value: a tag, then the payload.
pub open spec fn enc_datum(d: DatumV) -> Seq<u8> {
    match d {
        DatumV::False => seq![0u8],
        DatumV::True => seq![1u8],
        DatumV::Int16(x) => seq![2u8] + u64_le(x as i64 as u64),
        DatumV::Int32(x) => seq![3u8] + u64_le(x as i64 as u64),
        DatumV::Int64(x) => seq![4u8] + u64_le(x as u64),
        DatumV::Str(s) => seq![5u8] + enc_str(s),
        DatumV::Bytes(b) => seq![6u8] + enc_bytes(b),
        DatumV::Dummy => seq![7u8],
        DatumV::Null => seq![8u8],
    }
}

/// The encoding of an optional dimension pair.
pub open spec fn enc_dims(dims: Option<(u64, u64)>) -> Seq<u8> {
    match dims {
        Option::None => seq![0u8],
        Option::Some(p) => seq![1u8] + u64_le(p.0) + u64_le(p.1),
    }
}

/// The encoding of an error: its tag, then the payload.
pub open spec fn enc_err(e: ErrV) -> Seq<u8> {
    match e {
        ErrV::DivisionByZero => seq![0u8],
        ErrV::NumericFieldOverflow => seq![1u8],
        ErrV::Int16OutOfRange(v) => seq![2u8] + u64_le(v as u64),
        ErrV::Int32OutOfRange(v) => seq![3u8] + u64_le(v as u64),
        ErrV::Int64OutOfRange(v) => seq![4u8] + u64_le(v as u64),
        ErrV::InvalidBase64EndSequence => seq![5u8],
        ErrV::InvalidHashAlgorithm(s) => seq![6u8] + enc_str(s),
        ErrV::LikeEscapeTooLong => seq![7u8],
        ErrV::IncompatibleArrayDimensions { dims } => seq![8u8] + enc_dims(dims),
        ErrV::MustNotBeNull(s) => seq![9u8] + enc_str(s),
        ErrV::IfNullError(s) => seq![10u8] + enc_str(s),
        ErrV::Internal(s) => seq![11u8] + enc_str(s),
    }
}

/// The encoding of a column type: the scalar type's tag and the
/// nullability flag.
pub open spec fn enc_coltype(t: ColumnType) -> Seq<u8> {
    seq![scalar_rank(t.scalar_type) as u8, if t.nullable { 1u8 } else { 0u8 }]
}

/// The encoding of an expression: a tag, then the payload, children in
/// order. A column's diagnostic name is not part of the model and is not
/// carried.
pub open spec fn enc_expr(e: ExprV) -> Seq<u8>
    decreases e, 1int,
{
    match e {
        ExprV::Column(i) => seq![0u8] + u64_le(i as u64),
        ExprV::Literal(lit, t) => (match lit {
            Ok(d) => seq![1u8, 0u8] + enc_datum(d),
            Err(err) => seq![1u8, 1u8] + enc_err(err),
        }) + enc_coltype(t),
        ExprV::CallUnmaterializable(f) => seq![2u8, unmat_rank(f) as u8],
        ExprV::CallUnary { func, expr } => seq![3u8, unary_rank(func) as u8] + enc_expr(*expr),
        ExprV::CallBinary { func, expr1, expr2 } => seq![4u8, binary_rank(func) as u8] + enc_expr(
            *expr1,
        ) + enc_expr(*expr2),
        ExprV::CallVariadic { func, exprs } => seq![5u8, variadic_rank(func) as u8] + u64_le(
            exprs.len() as u64,
        ) + enc_list(exprs),
        ExprV::If { cond, when_true, when_false } => seq![6u8] + enc_expr(*cond) + enc_expr(
            *when_true,
        ) + enc_expr(*when_false),
    }
}

/// The encodings of a list of expressions, concatenated.
pub open spec fn enc_list(es: Seq<ExprV>) -> Seq<u8>
    decreases es, 0int,
{
    if es.len() == 0 {
        Seq::empty()
    } else {
        enc_expr(es[0]) + enc_list(es.drop_first())
    }
}


/// Decodes eight little-endian bytes.
pub open spec fn dec_u64(s: Seq<u8>) -> Option<(u64, int)> {
    if s.len() >= 8 {
        Some((u64_of_le(s), 8int))
    } else {
        None
    }
}

/// Decodes a length-prefixed string.
pub open spec fn dec_str(s: Seq<u8>) -> Option<(Seq<char>, int)> {
    match dec_u64(s) {
        None => None,
        Some((n, _)) => if 8 + n <= s.len() && vstd::utf8::valid_utf8(
            s.subrange(8, 8 + n as int),
        ) {
            Some((vstd::utf8::decode_utf8(s.subrange(8, 8 + n as int)), 8 + n as int))
        } else {
            None
        },
    }
}

/// Decodes a length-prefixed byte string.
pub open spec fn dec_bytes(s: Seq<u8>) -> Option<(Seq<u8>, int)> {
    match dec_u64(s) {
        None => None,
        Some((n, _)) => if 8 + n <= s.len() {
            Some((s.subrange(8, 8 + n as int), 8 + n as int))
        } else {
            None
        },
    }
}

/// Decodes a tagged value.
pub open spec fn dec_datum(s: Seq<u8>) -> Option<(DatumV, int)> {
    if s.len() < 1 {
        None
    } else {
        let rest = s.drop_first();
        if s[0] == 0 {
            Some((DatumV::False, 1int))
        } else if s[0] == 1 {
            Some((DatumV::True, 1int))
        } else if s[0] == 2 {
            match dec_u64(rest) {
                Some((x, c)) => Some((DatumV::Int16(x as i64 as i16), 1 + c)),
                None => None,
            }
        } else if s[0] == 3 {
            match dec_u64(rest) {
                Some((x, c)) => Some((DatumV::Int32(x as i64 as i32), 1 + c)),
                None => None,
            }
        } else if s[0] == 4 {
            match dec_u64(rest) {
                Some((x, c)) => Some((DatumV::Int64(x as i64), 1 + c)),
                None => None,
            }
        } else if s[0] == 5 {
            match dec_str(rest) {
                Some((x, c)) => Some((DatumV::Str(x), 1 + c)),
                None => None,
            }
        } else if s[0] == 6 {
            match dec_bytes(rest) {
                Some((x, c)) => Some((DatumV::Bytes(x), 1 + c)),
                None => None,
            }
        } else if s[0] == 7 {
            Some((DatumV::Dummy, 1int))
        } else if s[0] == 8 {
            Some((DatumV::Null, 1int))
        } else {
            None
        }
    }
}

/// Decodes an optional dimension pair.
pub open spec fn dec_dims(s: Seq<u8>) -> Option<(Option<(u64, u64)>, int)> {
    if s.len() < 1 {
        None
    } else if s[0] == 0 {
        Some((Option::None, 1int))
    } else if s[0] == 1 {
        match dec_u64(s.drop_first()) {
            Some((a, _)) => match dec_u64(s.skip(9)) {
                Some((b, _)) => Some((Some((a, b)), 17int)),
                None => None,
            },
            None => None,
        }
    } else {
        None
    }
}

/// Decodes a tagged error.
pub open spec fn dec_err(s: Seq<u8>) -> Option<(ErrV, int)> {
    if s.len() < 1 {
        None
    } else {
        let rest = s.drop_first();
        if s[0] == 0 {
            Some((ErrV::DivisionByZero, 1int))
        } else if s[0] == 1 {
            Some((ErrV::NumericFieldOverflow, 1int))
        } else if s[0] == 2 {
            match dec_u64(rest) {
                Some((x, c)) => Some((ErrV::Int16OutOfRange(x as i64), 1 + c)),
                None => None,
            }
        } else if s[0] == 3 {
            match dec_u64(rest) {
                Some((x, c)) => Some((ErrV::Int32OutOfRange(x as i64), 1 + c)),
                None => None,
            }
        } else if s[0] == 4 {
            match dec_u64(rest) {
                Some((x, c)) => Some((ErrV::Int64OutOfRange(x as i64), 1 + c)),
                None => None,
            }
        } else if s[0] == 5 {
            Some((ErrV::InvalidBase64EndSequence, 1int))
        } else if s[0] == 6 {
            match dec_str(rest) {
                Some((x, c)) => Some((ErrV::InvalidHashAlgorithm(x), 1 + c)),
                None => None,
            }
        } else if s[0] == 7 {
            Some((ErrV::LikeEscapeTooLong, 1int))
        } else if s[0] == 8 {
            match dec_dims(rest) {
                Some((x, c)) => Some((ErrV::IncompatibleArrayDimensions { dims: x }, 1 + c)),
                None => None,
            }
        } else if s[0] == 9 {
            match dec_str(rest) {
                Some((x, c)) => Some((ErrV::MustNotBeNull(x), 1 + c)),
                None => None,
            }
        } else if s[0] == 10 {
            match dec_str(rest) {
                Some((x, c)) => Some((ErrV::IfNullError(x), 1 + c)),
                None => None,
            }
        } else if s[0] == 11 {
            match dec_str(rest) {
                Some((x, c)) => Some((ErrV::Internal(x), 1 + c)),
                None => None,
            }
        } else {
            None
        }
    }
}

/// The scalar type a tag stands for.
pub open spec fn scalar_of_rank(b: u8) -> Option<ScalarType> {
    if b == 0 {
        Some(ScalarType::Bool)
    } else if b == 1 {
        Some(ScalarType::Int16)
    } else if b == 2 {
        Some(ScalarType::Int32)
    } else if b == 3 {
        Some(ScalarType::Int64)
    } else if b == 4 {
        Some(ScalarType::String)
    } else if b == 5 {
        Some(ScalarType::Bytes)
    } else {
        None
    }
}

/// Decodes a column type.
pub open spec fn dec_coltype(s: Seq<u8>) -> Option<(ColumnType, int)> {
    if s.len() < 2 {
        None
    } else {
        match scalar_of_rank(s[0]) {
            Some(t) => if s[1] == 0 || s[1] == 1 {
                Some((ColumnType { scalar_type: t, nullable: s[1] == 1 }, 2int))
            } else {
                None
            },
            None => None,
        }
    }
}

/// The unmaterializable function a tag stands for.
pub open spec fn unmat_of_rank(b: u8) -> Option<UnmaterializableFunc> {
    if b == 0 {
        Some(UnmaterializableFunc::CurrentDatabase)
    } else if b == 1 {
        Some(UnmaterializableFunc::CurrentSchema)
    } else if b == 2 {
        Some(UnmaterializableFunc::CurrentUser)
    } else if b == 3 {
        Some(UnmaterializableFunc::IsRbacEnabled)
    } else if b == 4 {
        Some(UnmaterializableFunc::MzIsSuperuser)
    } else if b == 5 {
        Some(UnmaterializableFunc::MzVersion)
    } else if b == 6 {
        Some(UnmaterializableFunc::MzVersionNum)
    } else if b == 7 {
        Some(UnmaterializableFunc::PgBackendPid)
    } else if b == 8 {
        Some(UnmaterializableFunc::SessionUser)
    } else if b == 9 {
        Some(UnmaterializableFunc::Version)
    } else {
        None
    }
}

/// The unary function a tag stands for.
pub open spec fn unary_of_rank(b: u8) -> Option<UnaryFunc> {
    if b == 0 {
        Some(UnaryFunc::Not)
    } else if b == 1 {
        Some(UnaryFunc::IsNull)
    } else if b == 2 {
        Some(UnaryFunc::IsTrue)
    } else if b == 3 {
        Some(UnaryFunc::IsFalse)
    } else if b == 4 {
        Some(UnaryFunc::NegInt32)
    } else if b == 5 {
        Some(UnaryFunc::NegInt64)
    } else if b == 6 {
        Some(UnaryFunc::CastInt16ToInt32)
    } else if b == 7 {
        Some(UnaryFunc::CastInt16ToInt64)
    } else if b == 8 {
        Some(UnaryFunc::CastInt32ToInt64)
    } else if b == 9 {
        Some(UnaryFunc::CastInt32ToInt16)
    } else if b == 10 {
        Some(UnaryFunc::CastInt64ToInt16)
    } else if b == 11 {
        Some(UnaryFunc::CastInt64ToInt32)
    } else {
        None
    }
}

/// The binary function a tag stands for.
pub open spec fn binary_of_rank(b: u8) -> Option<BinaryFunc> {
    if b == 0 {
        Some(BinaryFunc::AddInt16)
    } else if b == 1 {
        Some(BinaryFunc::AddInt32)
    } else if b == 2 {
        Some(BinaryFunc::AddInt64)
    } else if b == 3 {
        Some(BinaryFunc::SubInt16)
    } else if b == 4 {
        Some(BinaryFunc::SubInt32)
    } else if b == 5 {
        Some(BinaryFunc::SubInt64)
    } else if b == 6 {
        Some(BinaryFunc::MulInt16)
    } else if b == 7 {
        Some(BinaryFunc::MulInt32)
    } else if b == 8 {
        Some(BinaryFunc::MulInt64)
    } else if b == 9 {
        Some(BinaryFunc::DivInt16)
    } else if b == 10 {
        Some(BinaryFunc::DivInt32)
    } else if b == 11 {
        Some(BinaryFunc::DivInt64)
    } else if b == 12 {
        Some(BinaryFunc::Eq)
    } else if b == 13 {
        Some(BinaryFunc::NotEq)
    } else if b == 14 {
        Some(BinaryFunc::Lt)
    } else if b == 15 {
        Some(BinaryFunc::Lte)
    } else if b == 16 {
        Some(BinaryFunc::Gt)
    } else if b == 17 {
        Some(BinaryFunc::Gte)
    } else if b == 18 {
        Some(BinaryFunc::IsLikeMatch { case_insensitive: false })
    } else if b == 19 {
        Some(BinaryFunc::IsLikeMatch { case_insensitive: true })
    } else if b == 20 {
        Some(BinaryFunc::ConstantTimeEqBytes)
    } else if b == 21 {
        Some(BinaryFunc::ConstantTimeEqStr)
    } else {
        None
    }
}

/// The variadic function a tag stands for.
pub open spec fn variadic_of_rank(b: u8) -> Option<VariadicFunc> {
    if b == 0 {
        Some(VariadicFunc::Coalesce)
    } else if b == 1 {
        Some(VariadicFunc::Greatest)
    } else if b == 2 {
        Some(VariadicFunc::Least)
    } else if b == 3 {
        Some(VariadicFunc::And)
    } else if b == 4 {
        Some(VariadicFunc::Or)
    } else if b == 5 {
        Some(VariadicFunc::ErrorIfNull)
    } else if b == 6 {
        Some(VariadicFunc::HmacString)
    } else if b == 7 {
        Some(VariadicFunc::HmacBytes)
    } else {
        None
    }
}

/// Decodes a literal expression, given its leading tag.
pub open spec fn dec_lit_case(s: Seq<u8>) -> Option<(ExprV, int)> {
    if s.len() < 2 {
        None
    } else {
        let body = s.skip(2);
        let lit = if s[1] == 0 {
            match dec_datum(body) {
                Some((d, c)) => Some((Ok::<DatumV, ErrV>(d), c)),
                None => None,
            }
        } else if s[1] == 1 {
            match dec_err(body) {
                Some((err, c)) => Some((Err::<DatumV, ErrV>(err), c)),
                None => None,
            }
        } else {
            None
        };
        match lit {
            Some((l, c)) => match dec_coltype(s.skip(2 + c)) {
                Some((t, c2)) => Some((ExprV::Literal(l, t), 2 + c + c2)),
                None => None,
            },
            None => None,
        }
    }
}

/// Decodes one expression from the front of the bytes, with how many bytes
/// it took.
pub open spec fn dec_expr(s: Seq<u8>) -> Option<(ExprV, int)>
    decreases s.len(), 0int, 1int,
{
    if s.len() < 1 {
        None
    } else if s[0] == 0 {
        match dec_u64(s.drop_first()) {
            Some((i, c)) => if i <= usize::MAX as u64 {
                Some((ExprV::Column(i as int), 1 + c))
            } else {
                None
            },
            None => None,
        }
    } else if s[0] == 1 {
        dec_lit_case(s)
    } else if s[0] == 2 {
        if s.len() < 2 {
            None
        } else {
            match unmat_of_rank(s[1]) {
                Some(f) => Some((ExprV::CallUnmaterializable(f), 2int)),
                None => None,
            }
        }
    } else if s[0] == 3 {
        if s.len() < 2 {
            None
        } else {
            match unary_of_rank(s[1]) {
                Some(f) => match dec_expr(s.skip(2)) {
                    Some((e, c)) => Some((
                        ExprV::CallUnary { func: f, expr: Box::new(e) },
                        2 + c,
                    )),
                    None => None,
                },
                None => None,
            }
        }
    } else if s[0] == 4 {
        if s.len() < 2 {
            None
        } else {
            match binary_of_rank(s[1]) {
                Some(f) => match dec_expr(s.skip(2)) {
                    Some((e1, c1)) => if 0 <= c1 && 2 + c1 <= s.len() {
                        match dec_expr(s.skip(2 + c1)) {
                            Some((e2, c2)) => Some((
                                ExprV::CallBinary {
                                    func: f,
                                    expr1: Box::new(e1),
                                    expr2: Box::new(e2),
                                },
                                2 + c1 + c2,
                            )),
                            None => None,
                        }
                    } else {
                        None
                    },
                    None => None,
                },
                None => None,
            }
        }
    } else if s[0] == 5 {
        if s.len() < 10 {
            None
        } else {
            match variadic_of_rank(s[1]) {
                Some(f) => match dec_u64(s.skip(2)) {
                    Some((n, _)) => match dec_list(s.skip(10), n as int) {
                        Some((es, c)) => Some((
                            ExprV::CallVariadic { func: f, exprs: es },
                            10 + c,
                        )),
                        None => None,
                    },
                    None => None,
                },
                None => None,
            }
        }
    } else if s[0] == 6 {
        dec_if_case(s)
    } else {
        None
    }
}

/// Decodes a conditional, given its leading tag.
pub open spec fn dec_if_case(s: Seq<u8>) -> Option<(ExprV, int)>
    decreases s.len(), 0int, 0int,
{
    if s.len() < 1 {
        None
    } else {
        match dec_expr(s.drop_first()) {
            Some((c0, k0)) => if 0 <= k0 && 1 + k0 <= s.len() {
                match dec_expr(s.skip(1 + k0)) {
                    Some((t0, k1)) => if 0 <= k1 && 1 + k0 + k1 <= s.len() {
                        match dec_expr(s.skip(1 + k0 + k1)) {
                            Some((f0, k2)) => Some((
                                ExprV::If {
                                    cond: Box::new(c0),
                                    when_true: Box::new(t0),
                                    when_false: Box::new(f0),
                                },
                                1 + k0 + k1 + k2,
                            )),
                            None => None,
                        }
                    } else {
                        None
                    },
                    None => None,
                }
            } else {
                None
            },
            None => None,
        }
    }
}

/// Decodes the given number of expressions from the front of the bytes.
pub open spec fn dec_list(s: Seq<u8>, n: int) -> Option<(Seq<ExprV>, int)>
    decreases s.len(), n, 0int,
{
    if n <= 0 {
        Some((Seq::empty(), 0int))
    } else {
        match dec_expr(s) {
            Some((e, c)) => if 1 <= c <= s.len() {
                match dec_list(s.skip(c), n - 1) {
                    Some((es, c2)) => Some((seq![e].add(es), c + c2)),
                    None => None,
                }
            } else {
                None
            },
            None => None,
        }
    }
}


/// The bound a length must satisfy to survive its eight-byte prefix.
pub open spec fn fits_u64(n: int) -> bool {
    n < 0x1_0000_0000_0000_0000
}

/// Whether every string, byte string and list of the expression is small
/// enough to encode; every value a program can build is.
pub open spec fn expr_bounded(e: ExprV) -> bool
    decreases e, 1int,
{
    match e {
        ExprV::Column(i) => 0 <= i <= usize::MAX as int,
        ExprV::Literal(lit, _) => match lit {
            Ok(d) => datum_bounded(d),
            Err(err) => err_bounded(err),
        },
        ExprV::CallUnmaterializable(_) => true,
        ExprV::CallUnary { expr, .. } => expr_bounded(*expr),
        ExprV::CallBinary { expr1, expr2, .. } => expr_bounded(*expr1) && expr_bounded(*expr2),
        ExprV::CallVariadic { exprs, .. } => fits_u64(exprs.len() as int) && list_bounded(exprs),
        ExprV::If { cond, when_true, when_false } => expr_bounded(*cond) && expr_bounded(
            *when_true,
        ) && expr_bounded(*when_false),
    }
}

/// Whether every expression of the list is bounded.
pub open spec fn list_bounded(es: Seq<ExprV>) -> bool
    decreases es, 0int,
{
    if es.len() == 0 {
        true
    } else {
        expr_bounded(es[0]) && list_bounded(es.drop_first())
    }
}

/// Whether a value is small enough to encode.
pub open spec fn datum_bounded(d: DatumV) -> bool {
    match d {
        DatumV::Str(s) => fits_u64(vstd::utf8::encode_utf8(s).len() as int),
        DatumV::Bytes(b) => fits_u64(b.len() as int),
        _ => true,
    }
}

/// Whether an error is small enough to encode.
pub open spec fn err_bounded(e: ErrV) -> bool {
    match e {
        ErrV::InvalidHashAlgorithm(s) => fits_u64(vstd::utf8::encode_utf8(s).len() as int),
        ErrV::MustNotBeNull(s) => fits_u64(vstd::utf8::encode_utf8(s).len() as int),
        ErrV::IfNullError(s) => fits_u64(vstd::utf8::encode_utf8(s).len() as int),
        ErrV::Internal(s) => fits_u64(vstd::utf8::encode_utf8(s).len() as int),
        _ => true,
    }
}

/// Decoding an encoded 64-bit value gives it back.
pub proof fn lemma_dec_u64(x: u64, rest: Seq<u8>)
    ensures
        dec_u64(u64_le(x) + rest) == Some((x, 8int)),
{
    let s = u64_le(x) + rest;
    assert(s[0] == u64_le(x)[0]);
    assert(s[1] == u64_le(x)[1]);
    assert(s[2] == u64_le(x)[2]);
    assert(s[3] == u64_le(x)[3]);
    assert(s[4] == u64_le(x)[4]);
    assert(s[5] == u64_le(x)[5]);
    assert(s[6] == u64_le(x)[6]);
    assert(s[7] == u64_le(x)[7]);
    lemma_u64_le_roundtrip(x);
    assert(u64_of_le(s) == u64_of_le(u64_le(x)));
}

/// Decoding an encoded string gives it back.
pub proof fn lemma_dec_str(str: Seq<char>, rest: Seq<u8>)
    requires
        fits_u64(vstd::utf8::encode_utf8(str).len() as int),
    ensures
        dec_str(enc_str(str) + rest) == Some((str, enc_str(str).len() as int)),
{
    let utf8 = vstd::utf8::encode_utf8(str);
    let n = utf8.len() as u64;
    let s = enc_str(str) + rest;
    assert(s =~= u64_le(n) + (utf8 + rest));
    lemma_dec_u64(n, utf8 + rest);
    assert(s.subrange(8, 8 + n as int) =~= utf8);
    vstd::utf8::encode_utf8_valid_utf8(str);
    vstd::utf8::encode_utf8_decode_utf8(str);
}

/// Decoding an encoded byte string gives it back.
pub proof fn lemma_dec_bytes(b: Seq<u8>, rest: Seq<u8>)
    requires
        fits_u64(b.len() as int),
    ensures
        dec_bytes(enc_bytes(b) + rest) == Some((b, enc_bytes(b).len() as int)),
{
    let n = b.len() as u64;
    let s = enc_bytes(b) + rest;
    assert(s =~= u64_le(n) + (b + rest));
    lemma_dec_u64(n, b + rest);
    assert(s.subrange(8, 8 + n as int) =~= b);
}

/// Decoding an encoded value gives it back.
pub proof fn lemma_dec_datum(d: DatumV, rest: Seq<u8>)
    requires
        datum_bounded(d),
    ensures
        dec_datum(enc_datum(d) + rest) == Some((d, enc_datum(d).len() as int)),
{
    let s = enc_datum(d) + rest;
    assert(s[0] == enc_datum(d)[0]);
    match d {
        DatumV::Int16(x) => {
            assert(s.drop_first() =~= u64_le(x as i64 as u64) + rest);
            lemma_dec_u64(x as i64 as u64, rest);
            assert(x as i64 as u64 as i64 as i16 == x) by (bit_vector);
        }
        DatumV::Int32(x) => {
            assert(s.drop_first() =~= u64_le(x as i64 as u64) + rest);
            lemma_dec_u64(x as i64 as u64, rest);
            assert(x as i64 as u64 as i64 as i32 == x) by (bit_vector);
        }
        DatumV::Int64(x) => {
            assert(s.drop_first() =~= u64_le(x as u64) + rest);
            lemma_dec_u64(x as u64, rest);
            assert(x as u64 as i64 == x) by (bit_vector);
        }
        DatumV::Str(str) => {
            assert(s.drop_first() =~= enc_str(str) + rest);
            lemma_dec_str(str, rest);
        }
        DatumV::Bytes(b) => {
            assert(s.drop_first() =~= enc_bytes(b) + rest);
            lemma_dec_bytes(b, rest);
        }
        _ => {}
    }
}

/// Decoding an encoded dimension pair gives it back.
pub proof fn lemma_dec_dims(dims: Option<(u64, u64)>, rest: Seq<u8>)
    ensures
        dec_dims(enc_dims(dims) + rest) == Some((dims, enc_dims(dims).len() as int)),
{
    let s = enc_dims(dims) + rest;
    assert(s[0] == enc_dims(dims)[0]);
    match dims {
        Option::None => {}
        Option::Some(p) => {
            assert(s.drop_first() =~= u64_le(p.0) + (u64_le(p.1) + rest));
            lemma_dec_u64(p.0, u64_le(p.1) + rest);
            assert(s.skip(9) =~= u64_le(p.1) + rest);
            lemma_dec_u64(p.1, rest);
        }
    }
}

/// Decoding an encoded error gives it back.
#[verifier::rlimit(100)]
pub proof fn lemma_dec_err(e: ErrV, rest: Seq<u8>)
    requires
        err_bounded(e),
    ensures
        dec_err(enc_err(e) + rest) == Some((e, enc_err(e).len() as int)),
{
    let s = enc_err(e) + rest;
    assert(s[0] == enc_err(e)[0]);
    match e {
        ErrV::Int16OutOfRange(v) => {
            assert(s.drop_first() =~= u64_le(v as u64) + rest);
            lemma_dec_u64(v as u64, rest);
            assert(v as u64 as i64 == v) by (bit_vector);
        }
        ErrV::Int32OutOfRange(v) => {
            assert(s.drop_first() =~= u64_le(v as u64) + rest);
            lemma_dec_u64(v as u64, rest);
            assert(v as u64 as i64 == v) by (bit_vector);
        }
        ErrV::Int64OutOfRange(v) => {
            assert(s.drop_first() =~= u64_le(v as u64) + rest);
            lemma_dec_u64(v as u64, rest);
            assert(v as u64 as i64 == v) by (bit_vector);
        }
        ErrV::InvalidHashAlgorithm(str) => {
            assert(s.drop_first() =~= enc_str(str) + rest);
            lemma_dec_str(str, rest);
        }
        ErrV::IncompatibleArrayDimensions { dims } => {
            assert(s.drop_first() =~= enc_dims(dims) + rest);
            lemma_dec_dims(dims, rest);
        }
        ErrV::MustNotBeNull(str) => {
            assert(s.drop_first() =~= enc_str(str) + rest);
            lemma_dec_str(str, rest);
        }
        ErrV::IfNullError(str) => {
            assert(s.drop_first() =~= enc_str(str) + rest);
            lemma_dec_str(str, rest);
        }
        ErrV::Internal(str) => {
            assert(s.drop_first() =~= enc_str(str) + rest);
            lemma_dec_str(str, rest);
        }
        _ => {}
    }
}

/// Decoding an encoded column type gives it back.
pub proof fn lemma_dec_coltype(t: ColumnType, rest: Seq<u8>)
    ensures
        dec_coltype(enc_coltype(t) + rest) == Some((t, 2int)),
{
    let s = enc_coltype(t) + rest;
    assert(s[0] == enc_coltype(t)[0]);
    assert(s[1] == enc_coltype(t)[1]);
}

/// Decoding an encoded expression gives it back; the round trip of the
/// interchange format.
#[verifier::rlimit(100)]
#[verifier::spinoff_prover]
pub proof fn lemma_dec_expr(e: ExprV, rest: Seq<u8>)
    requires
        expr_bounded(e),
    ensures
        dec_expr(enc_expr(e) + rest) == Some((e, enc_expr(e).len() as int)),
        enc_expr(e).len() >= 1,
    decreases e, 1int,
{
    let s = enc_expr(e) + rest;
    assert(s[0] == enc_expr(e)[0]);
    match e {
        ExprV::Column(i) => {
            assert(s.drop_first() =~= u64_le(i as u64) + rest);
            lemma_dec_u64(i as u64, rest);
        }
        ExprV::Literal(lit, t) => {
            lemma_dec_expr_lit(lit, t, rest);
        }
        ExprV::CallUnmaterializable(f) => {
            assert(s[1] == enc_expr(e)[1]);
        }
        ExprV::CallUnary { func, expr } => {
            lemma_dec_expr(*expr, rest);
            lemma_dec_expr_unary(func, *expr, rest);
        }
        ExprV::CallBinary { func, expr1, expr2 } => {
            lemma_dec_expr(*expr1, enc_expr(*expr2) + rest);
            lemma_dec_expr(*expr2, rest);
            lemma_dec_expr_binary(func, *expr1, *expr2, rest);
        }
        ExprV::CallVariadic { func, exprs } => {
            lemma_dec_list(exprs, rest);
            lemma_dec_expr_variadic(func, exprs, rest);
        }
        ExprV::If { cond, when_true, when_false } => {
            lemma_dec_expr(*cond, enc_expr(*when_true) + (enc_expr(*when_false) + rest));
            lemma_dec_expr(*when_true, enc_expr(*when_false) + rest);
            lemma_dec_expr(*when_false, rest);
            lemma_dec_expr_if(*cond, *when_true, *when_false, rest);
        }
    }
}

/// Wraps the decoding of a unary call around its child's.
#[verifier::rlimit(100)]
#[verifier::spinoff_prover]
proof fn lemma_dec_expr_unary(func: UnaryFunc, child: ExprV, rest: Seq<u8>)
    requires
        dec_expr(enc_expr(child) + rest) == Some((child, enc_expr(child).len() as int)),
        enc_expr(child).len() >= 1,
    ensures
        ({
            let e = ExprV::CallUnary { func, expr: Box::new(child) };
            dec_expr(enc_expr(e) + rest) == Some((e, enc_expr(e).len() as int))
                && enc_expr(e).len() >= 1
        }),
{
    let e = ExprV::CallUnary { func, expr: Box::new(child) };
    let s = enc_expr(e) + rest;
    assert(s[0] == enc_expr(e)[0]);
    assert(s[1] == enc_expr(e)[1]);
    assert(s.skip(2) =~= enc_expr(child) + rest);
}

/// Wraps the decoding of a binary call around its children's.
#[verifier::rlimit(100)]
#[verifier::spinoff_prover]
proof fn lemma_dec_expr_binary(func: BinaryFunc, a: ExprV, b: ExprV, rest: Seq<u8>)
    requires
        dec_expr(enc_expr(a) + (enc_expr(b) + rest)) == Some((a, enc_expr(a).len() as int)),
        dec_expr(enc_expr(b) + rest) == Some((b, enc_expr(b).len() as int)),
        enc_expr(a).len() >= 1,
        enc_expr(b).len() >= 1,
    ensures
        ({
            let e = ExprV::CallBinary { func, expr1: Box::new(a), expr2: Box::new(b) };
            dec_expr(enc_expr(e) + rest) == Some((e, enc_expr(e).len() as int))
                && enc_expr(e).len() >= 1
        }),
{
    let e = ExprV::CallBinary { func, expr1: Box::new(a), expr2: Box::new(b) };
    let c1 = enc_expr(a).len() as int;
    let c2 = enc_expr(b).len() as int;
    let s = enc_expr(e) + rest;
    assert(enc_expr(e) == seq![4u8, binary_rank(func) as u8] + enc_expr(a) + enc_expr(b));
    assert(s[0] == 4);
    assert(s[1] == binary_rank(func) as u8);
    assert(binary_of_rank(binary_rank(func) as u8) == Some(func));
    assert(s.skip(2) =~= enc_expr(a) + (enc_expr(b) + rest));
    assert(dec_expr(s.skip(2)) == Some((a, c1)));
    assert(2 + c1 <= s.len());
    assert(s.skip(2 + c1) =~= enc_expr(b) + rest);
    assert(dec_expr(s.skip(2 + c1)) == Some((b, c2)));
    assert(dec_expr(s) == Some((e, 2 + c1 + c2)));
    assert(enc_expr(e).len() == 2 + c1 + c2);
}

/// Wraps the decoding of a variadic call around its argument list's.
#[verifier::rlimit(100)]
#[verifier::spinoff_prover]
proof fn lemma_dec_expr_variadic(func: VariadicFunc, exprs: Seq<ExprV>, rest: Seq<u8>)
    requires
        fits_u64(exprs.len() as int),
        dec_list(enc_list(exprs) + rest, exprs.len() as int) == Some((
            exprs,
            enc_list(exprs).len() as int,
        )),
    ensures
        ({
            let e = ExprV::CallVariadic { func, exprs };
            dec_expr(enc_expr(e) + rest) == Some((e, enc_expr(e).len() as int))
                && enc_expr(e).len() >= 1
        }),
{
    let e = ExprV::CallVariadic { func, exprs };
    let s = enc_expr(e) + rest;
    assert(s[0] == enc_expr(e)[0]);
    assert(s[1] == enc_expr(e)[1]);
    let n = exprs.len() as u64;
    assert(s.skip(2) =~= u64_le(n) + (enc_list(exprs) + rest));
    lemma_dec_u64(n, enc_list(exprs) + rest);
    assert(s.skip(10) =~= enc_list(exprs) + rest);
}

/// How the encoding of a conditional splits at each child boundary.
#[verifier::rlimit(100)]
#[verifier::spinoff_prover]
proof fn lemma_if_splits(c: ExprV, t: ExprV, f: ExprV, rest: Seq<u8>)
    ensures
        ({
            let s = seq![6u8] + enc_expr(c) + enc_expr(t) + enc_expr(f) + rest;
            let k0 = enc_expr(c).len() as int;
            let k1 = enc_expr(t).len() as int;
            let k2 = enc_expr(f).len() as int;
            &&& s[0] == 6u8
            &&& s.len() == 1 + k0 + k1 + k2 + rest.len()
            &&& s.drop_first() == enc_expr(c) + (enc_expr(t) + (enc_expr(f) + rest))
            &&& s.skip(1 + k0) == enc_expr(t) + (enc_expr(f) + rest)
            &&& s.skip(1 + k0 + k1) == enc_expr(f) + rest
        }),
{
    let s = seq![6u8] + enc_expr(c) + enc_expr(t) + enc_expr(f) + rest;
    let k0 = enc_expr(c).len() as int;
    let k1 = enc_expr(t).len() as int;
    assert(s.drop_first() =~= enc_expr(c) + (enc_expr(t) + (enc_expr(f) + rest)));
    assert(s.skip(1 + k0) =~= enc_expr(t) + (enc_expr(f) + rest));
    assert(s.skip(1 + k0 + k1) =~= enc_expr(f) + rest);
}

/// Wraps the decoding of a conditional around its three children's.
#[verifier::rlimit(100)]
#[verifier::spinoff_prover]
proof fn lemma_dec_expr_if(c: ExprV, t: ExprV, f: ExprV, rest: Seq<u8>)
    requires
        dec_expr(enc_expr(c) + (enc_expr(t) + (enc_expr(f) + rest))) == Some((
            c,
            enc_expr(c).len() as int,
        )),
        dec_expr(enc_expr(t) + (enc_expr(f) + rest)) == Some((t, enc_expr(t).len() as int)),
        dec_expr(enc_expr(f) + rest) == Some((f, enc_expr(f).len() as int)),
        enc_expr(c).len() >= 1,
        enc_expr(t).len() >= 1,
        enc_expr(f).len() >= 1,
    ensures
        ({
            let e = ExprV::If {
                cond: Box::new(c),
                when_true: Box::new(t),
                when_false: Box::new(f),
            };
            dec_expr(enc_expr(e) + rest) == Some((e, enc_expr(e).len() as int))
                && enc_expr(e).len() >= 1
        }),
{
    let e = ExprV::If { cond: Box::new(c), when_true: Box::new(t), when_false: Box::new(f) };
    let k0 = enc_expr(c).len() as int;
    let k1 = enc_expr(t).len() as int;
    let k2 = enc_expr(f).len() as int;
    let s = enc_expr(e) + rest;
    assert(enc_expr(e) == seq![6u8] + enc_expr(c) + enc_expr(t) + enc_expr(f));
    lemma_if_splits(c, t, f, rest);
    assert(s =~= seq![6u8] + enc_expr(c) + enc_expr(t) + enc_expr(f) + rest);
    assert(dec_expr(s.drop_first()) == Some((c, k0)));
    assert(dec_expr(s.skip(1 + k0)) == Some((t, k1)));
    assert(dec_expr(s.skip(1 + k0 + k1)) == Some((f, k2)));
    assert(dec_if_case(s) == Some((e, 1 + k0 + k1 + k2)));
    assert(dec_expr(s) == Some((e, 1 + k0 + k1 + k2)));
    assert(enc_expr(e).len() == 1 + k0 + k1 + k2);
}

/// Decoding an encoded literal gives it back.
#[verifier::rlimit(100)]
#[verifier::spinoff_prover]
proof fn lemma_dec_expr_lit(lit: Result<DatumV, ErrV>, t: ColumnType, rest: Seq<u8>)
    requires
        expr_bounded(ExprV::Literal(lit, t)),
    ensures
        dec_expr(enc_expr(ExprV::Literal(lit, t)) + rest) == Some((
            ExprV::Literal(lit, t),
            enc_expr(ExprV::Literal(lit, t)).len() as int,
        )),
        enc_expr(ExprV::Literal(lit, t)).len() >= 1,
{
    let e = ExprV::Literal(lit, t);
    let s = enc_expr(e) + rest;
    assert(s[0] == enc_expr(e)[0]);
    assert(s[1] == enc_expr(e)[1]);
    match lit {
        Ok(d) => {
            assert(s.skip(2) =~= enc_datum(d) + (enc_coltype(t) + rest));
            lemma_dec_datum(d, enc_coltype(t) + rest);
            let c = enc_datum(d).len() as int;
            assert(s.skip(2 + c) =~= enc_coltype(t) + rest);
            lemma_dec_coltype(t, rest);
        }
        Err(err) => {
            assert(s.skip(2) =~= enc_err(err) + (enc_coltype(t) + rest));
            lemma_dec_err(err, enc_coltype(t) + rest);
            let c = enc_err(err).len() as int;
            assert(s.skip(2 + c) =~= enc_coltype(t) + rest);
            lemma_dec_coltype(t, rest);
        }
    }
}

/// Decoding an encoded list of expressions gives it back.
pub proof fn lemma_dec_list(es: Seq<ExprV>, rest: Seq<u8>)
    requires
        list_bounded(es),
    ensures
        dec_list(enc_list(es) + rest, es.len() as int) == Some((es, enc_list(es).len() as int)),
    decreases es, 0int,
{
    let s = enc_list(es) + rest;
    if es.len() == 0 {
        assert(dec_list(s, 0) == Some((Seq::<ExprV>::empty(), 0int)));
        assert(es =~= Seq::<ExprV>::empty());
    } else {
        assert(s =~= enc_expr(es[0]) + (enc_list(es.drop_first()) + rest));
        lemma_dec_expr(es[0], enc_list(es.drop_first()) + rest);
        let c = enc_expr(es[0]).len() as int;
        assert(s.skip(c) =~= enc_list(es.drop_first()) + rest);
        lemma_dec_list(es.drop_first(), rest);
        assert(seq![es[0]].add(es.drop_first()) =~= es);
    }
}


/// Appends eight little-endian bytes.
fn push_u64(out: &mut Vec<u8>, x: u64)
    ensures
        final(out)@ == old(out)@ + u64_le(x),
{
    let ghost before = out@;
    out.push(x as u8);
    out.push((x >> 8) as u8);
    out.push((x >> 16) as u8);
    out.push((x >> 24) as u8);
    out.push((x >> 32) as u8);
    out.push((x >> 40) as u8);
    out.push((x >> 48) as u8);
    out.push((x >> 56) as u8);
    proof {
        assert(out@ =~= before + u64_le(x));
    }
}

/// Appends a length-prefixed byte string.
fn push_bytes(out: &mut Vec<u8>, b: &Vec<u8>)
    ensures
        final(out)@ == old(out)@ + enc_bytes(b@),
{
    let ghost before = out@;
    push_u64(out, b.len() as u64);
    let mut i: usize = 0;
    while i < b.len()
        invariant
            i <= b@.len(),
            out@ == before + u64_le(b@.len() as u64) + b@.take(i as int),
        decreases b@.len() - i,
    {
        out.push(b[i]);
        proof {
            assert(b@.take(i + 1) =~= b@.take(i as int).push(b@[i as int]));
            assert(out@ =~= before + u64_le(b@.len() as u64) + b@.take(i + 1));
        }
        i = i + 1;
    }
    proof {
        assert(b@.take(b@.len() as int) =~= b@);
        assert(out@ =~= before + enc_bytes(b@));
    }
}

/// Appends a length-prefixed string as UTF-8.
fn push_str(out: &mut Vec<u8>, st: &String)
    ensures
        final(out)@ == old(out)@ + enc_str(st@),
{
    let ghost before = out@;
    let utf8 = string_to_utf8(st);
    push_bytes(out, &utf8);
    proof {
        assert(out@ =~= before + enc_str(st@));
    }
}

/// Appends the encoding of a value.
fn push_datum(out: &mut Vec<u8>, d: &Datum)
    ensures
        final(out)@ == old(out)@ + enc_datum(d@),
{
    let ghost before = out@;
    match d {
        Datum::False => out.push(0),
        Datum::True => out.push(1),
        Datum::Int16(x) => {
            out.push(2);
            push_u64(out, *x as i64 as u64);
        }
        Datum::Int32(x) => {
            out.push(3);
            push_u64(out, *x as i64 as u64);
        }
        Datum::Int64(x) => {
            out.push(4);
            push_u64(out, *x as u64);
        }
        Datum::Str(st) => {
            out.push(5);
            push_str(out, st);
        }
        Datum::Bytes(b) => {
            out.push(6);
            push_bytes(out, b);
        }
        Datum::Dummy => out.push(7),
        Datum::Null => out.push(8),
    }
    proof {
        assert(out@ =~= before + enc_datum(d@));
    }
}

/// Appends the encoding of an error.
fn push_err(out: &mut Vec<u8>, e: &EvalError)
    ensures
        final(out)@ == old(out)@ + enc_err(e@),
{
    let ghost before = out@;
    match e {
        EvalError::DivisionByZero => out.push(0),
        EvalError::NumericFieldOverflow => out.push(1),
        EvalError::Int16OutOfRange(v) => {
            out.push(2);
            push_u64(out, *v as u64);
        }
        EvalError::Int32OutOfRange(v) => {
            out.push(3);
            push_u64(out, *v as u64);
        }
        EvalError::Int64OutOfRange(v) => {
            out.push(4);
            push_u64(out, *v as u64);
        }
        EvalError::InvalidBase64EndSequence => out.push(5),
        EvalError::InvalidHashAlgorithm(st) => {
            out.push(6);
            push_str(out, st);
        }
        EvalError::LikeEscapeTooLong => out.push(7),
        EvalError::IncompatibleArrayDimensions { dims } => {
            out.push(8);
            match dims {
                Option::None => out.push(0),
                Option::Some(p) => {
                    out.push(1);
                    push_u64(out, p.0);
                    push_u64(out, p.1);
                }
            }
        }
        EvalError::MustNotBeNull(st) => {
            out.push(9);
            push_str(out, st);
        }
        EvalError::IfNullError(st) => {
            out.push(10);
            push_str(out, st);
        }
        EvalError::Internal(st) => {
            out.push(11);
            push_str(out, st);
        }
    }
    proof {
        assert(out@ =~= before + enc_err(e@));
    }
}

/// Appends the encoding of a column type.
fn push_coltype(out: &mut Vec<u8>, t: &ColumnType)
    ensures
        final(out)@ == old(out)@ + enc_coltype(*t),
{
    let ghost before = out@;
    let rank: u8 = match t.scalar_type {
        ScalarType::Bool => 0,
        ScalarType::Int16 => 1,
        ScalarType::Int32 => 2,
        ScalarType::Int64 => 3,
        ScalarType::String => 4,
        ScalarType::Bytes => 5,
    };
    out.push(rank);
    out.push(if t.nullable { 1 } else { 0 });
    proof {
        assert(out@ =~= before + enc_coltype(*t));
    }
}

impl MirScalarExpr {
    /// Appends the expression's encoding to the buffer.
    #[verifier::loop_isolation(false)]
    #[verifier::rlimit(100)]
    pub fn encode_into(&self, out: &mut Vec<u8>)
        requires
            rows_ok(*self),
        ensures
            final(out)@ == old(out)@ + enc_expr(self@),
        decreases *self,
    {
        let ghost before = out@;
        match self {
            MirScalarExpr::Column(i, _) => {
                out.push(0);
                push_u64(out, *i as u64);
            }
            MirScalarExpr::Literal(lit, t) => {
                out.push(1);
                match lit {
                    Ok(row) => {
                        out.push(0);
                        push_datum(out, row.unpack_first());
                    }
                    Err(e) => {
                        out.push(1);
                        push_err(out, e);
                    }
                }
                push_coltype(out, t);
            }
            MirScalarExpr::CallUnmaterializable(f) => {
                out.push(2);
                out.push(crate::cmp::unmat_rank_pub(f));
            }
            MirScalarExpr::CallUnary { func, expr } => {
                out.push(3);
                out.push(crate::cmp::unary_rank_pub(func));
                expr.encode_into(out);
            }
            MirScalarExpr::CallBinary { func, expr1, expr2 } => {
                out.push(4);
                out.push(crate::cmp::binary_rank_pub(func));
                expr1.encode_into(out);
                expr2.encode_into(out);
            }
            MirScalarExpr::CallVariadic { func, exprs } => {
                proof {
                    lemma_views_of(exprs@);
                    lemma_rows_ok_list(exprs@);
                }
                out.push(5);
                out.push(crate::cmp::variadic_rank_pub(func));
                push_u64(out, exprs.len() as u64);
                let ghost mid = out@;
                let ghost esv = views_of(exprs@);
                let mut i: usize = 0;
                proof {
                    lemma_enc_list_take(esv, 0);
                }
                while i < exprs.len()
                    invariant
                        i <= exprs@.len(),
                        out@ == mid + enc_list(esv.take(i as int)),
                    decreases exprs@.len() - i,
                {
                    proof {
                        assert(decreases_to!(*exprs => exprs@));
                        assert(decreases_to!(exprs@ => exprs@[i as int]));
                        assert(rows_ok(exprs@[i as int]));
                        assert(esv[i as int] == exprs@[i as int]@);
                    }
                    exprs[i].encode_into(out);
                    proof {
                        lemma_enc_list_snoc(esv, i as int);
                        assert(out@ =~= mid + enc_list(esv.take(i + 1)));
                    }
                    i = i + 1;
                }
                proof {
                    assert(esv.take(esv.len() as int) =~= esv);
                }
            }
            MirScalarExpr::If { cond, when_true, when_false } => {
                out.push(6);
                cond.encode_into(out);
                when_true.encode_into(out);
                when_false.encode_into(out);
            }
        }
        proof {
            assert(out@ =~= before + enc_expr(self@));
        }
    }

    /// The expression's encoding.
    pub fn encode(&self) -> (r: Vec<u8>)
        requires
            rows_ok(*self),
        ensures
            r@ == enc_expr(self@),
    {
        let mut out: Vec<u8> = Vec::new();
        self.encode_into(&mut out);
        proof {
            assert(out@ =~= enc_expr(self@));
        }
        out
    }
}

/// Extending an encoded prefix by one expression's encoding extends the
/// prefix encoding.
proof fn lemma_enc_list_snoc(es: Seq<ExprV>, i: int)
    requires
        0 <= i < es.len(),
    ensures
        enc_list(es.take(i + 1)) == enc_list(es.take(i)) + enc_expr(es[i]),
    decreases i,
{
    let p = es.take(i + 1);
    if i == 0 {
        assert(p =~= seq![es[0]]);
        assert(p.drop_first() =~= Seq::<ExprV>::empty());
        assert(es.take(0) =~= Seq::<ExprV>::empty());
        assert(enc_list(p) =~= enc_expr(es[0]) + enc_list(p.drop_first()));
        assert(enc_list(es.take(0)) + enc_expr(es[0]) =~= enc_expr(es[0]));
        assert(enc_list(p.drop_first()) =~= Seq::<u8>::empty());
        assert(enc_expr(es[0]) + enc_list(p.drop_first()) =~= enc_expr(es[0]));
    } else {
        lemma_enc_list_snoc(es.drop_first(), i - 1);
        assert(p[0] == es[0]);
        assert(p.drop_first() =~= es.drop_first().take(i));
        assert(es.take(i)[0] == es[0]);
        assert(es.take(i).drop_first() =~= es.drop_first().take(i - 1));
        assert(es.drop_first()[i - 1] == es[i]);
        assert(enc_list(p) == enc_expr(es[0]) + enc_list(es.drop_first().take(i)));
        assert(enc_list(es.drop_first().take(i)) == enc_list(es.drop_first().take(i - 1))
            + enc_expr(es[i]));
        assert(enc_list(es.take(i)) == enc_expr(es[0]) + enc_list(es.drop_first().take(i - 1)));
        assert(enc_list(p) =~= enc_list(es.take(i)) + enc_expr(es[i]));
    }
}

/// The empty prefix encodes to nothing.
proof fn lemma_enc_list_take(es: Seq<ExprV>, i: int)
    ensures
        enc_list(es.take(0)) == Seq::<u8>::empty(),
{
    assert(es.take(0) =~= Seq::<ExprV>::empty());
    assert(enc_list(es.take(0)) =~= Seq::<u8>::empty());
}


/// Reads eight little-endian bytes at a position.
fn read_u64(bytes: &Vec<u8>, pos: usize) -> (r: Option<(u64, usize)>)
    requires
        pos <= bytes@.len(),
    ensures
        match r {
            Some((x, p2)) => p2 == pos + 8 && p2 <= bytes@.len() && dec_u64(
                bytes@.skip(pos as int),
            ) == Some((x, 8int)),
            None => dec_u64(bytes@.skip(pos as int)) is None,
        },
{
    let ghost s = bytes@.skip(pos as int);
    if bytes.len() - pos < 8 {
        return None;
    }
    proof {
        assert(s[0] == bytes@[pos as int]);
        assert(s[1] == bytes@[pos + 1]);
        assert(s[2] == bytes@[pos + 2]);
        assert(s[3] == bytes@[pos + 3]);
        assert(s[4] == bytes@[pos + 4]);
        assert(s[5] == bytes@[pos + 5]);
        assert(s[6] == bytes@[pos + 6]);
        assert(s[7] == bytes@[pos + 7]);
    }
    let x = (bytes[pos] as u64) | (bytes[pos + 1] as u64) << 8 | (bytes[pos + 2] as u64) << 16 | (
    bytes[pos + 3] as u64) << 24 | (bytes[pos + 4] as u64) << 32 | (bytes[pos + 5] as u64) << 40 | (
    bytes[pos + 6] as u64) << 48 | (bytes[pos + 7] as u64) << 56;
    Some((x, pos + 8))
}

/// Reads a length-prefixed byte string at a position.
fn read_bytes(bytes: &Vec<u8>, pos: usize) -> (r: Option<(Vec<u8>, usize)>)
    requires
        pos <= bytes@.len(),
    ensures
        match r {
            Some((b, p2)) => pos <= p2 <= bytes@.len() && dec_bytes(bytes@.skip(pos as int))
                == Some((b@, p2 - pos as int)),
            None => dec_bytes(bytes@.skip(pos as int)) is None,
        },
{
    let ghost s = bytes@.skip(pos as int);
    match read_u64(bytes, pos) {
        None => None,
        Some((n, p1)) => {
            if n > (bytes.len() - p1) as u64 {
                return None;
            }
            let count = n as usize;
            let lenu = bytes.len();
            let mut b: Vec<u8> = Vec::new();
            let mut i: usize = 0;
            while i < count
                invariant
                    i <= count,
                    lenu == bytes@.len(),
                    p1 + count <= lenu,
                    b@ =~= bytes@.subrange(p1 as int, p1 + i),
                decreases count - i,
            {
                b.push(bytes[p1 + i]);
                proof {
                    assert(b@ =~= bytes@.subrange(p1 as int, p1 + i + 1));
                }
                i = i + 1;
            }
            proof {
                assert(s.subrange(8, 8 + n as int) =~= bytes@.subrange(
                    p1 as int,
                    p1 + count,
                ));
            }
            Some((b, p1 + count))
        }
    }
}

/// Reads a length-prefixed UTF-8 string at a position.
fn read_str(bytes: &Vec<u8>, pos: usize) -> (r: Option<(String, usize)>)
    requires
        pos <= bytes@.len(),
    ensures
        match r {
            Some((st, p2)) => pos <= p2 <= bytes@.len() && dec_str(bytes@.skip(pos as int))
                == Some((st@, p2 - pos as int)),
            None => dec_str(bytes@.skip(pos as int)) is None,
        },
{
    match read_bytes(bytes, pos) {
        None => None,
        Some((b, p2)) => match string_from_utf8(b) {
            Some(st) => Some((st, p2)),
            None => None,
        },
    }
}

/// Reads a tagged value at a position.
fn read_datum(bytes: &Vec<u8>, pos: usize) -> (r: Option<(Datum, usize)>)
    requires
        pos <= bytes@.len(),
    ensures
        match r {
            Some((d, p2)) => pos <= p2 <= bytes@.len() && dec_datum(bytes@.skip(pos as int))
                == Some((d@, p2 - pos as int)),
            None => dec_datum(bytes@.skip(pos as int)) is None,
        },
{
    let ghost s = bytes@.skip(pos as int);
    if pos >= bytes.len() {
        return None;
    }
    proof {
        assert(s[0] == bytes@[pos as int]);
        assert(s.drop_first() =~= bytes@.skip(pos + 1));
    }
    let tag = bytes[pos];
    if tag == 0 {
        Some((Datum::False, pos + 1))
    } else if tag == 1 {
        Some((Datum::True, pos + 1))
    } else if tag == 2 {
        match read_u64(bytes, pos + 1) {
            Some((x, p2)) => Some((Datum::Int16(x as i64 as i16), p2)),
            None => None,
        }
    } else if tag == 3 {
        match read_u64(bytes, pos + 1) {
            Some((x, p2)) => Some((Datum::Int32(x as i64 as i32), p2)),
            None => None,
        }
    } else if tag == 4 {
        match read_u64(bytes, pos + 1) {
            Some((x, p2)) => Some((Datum::Int64(x as i64), p2)),
            None => None,
        }
    } else if tag == 5 {
        match read_str(bytes, pos + 1) {
            Some((st, p2)) => Some((Datum::Str(st), p2)),
            None => None,
        }
    } else if tag == 6 {
        match read_bytes(bytes, pos + 1) {
            Some((b, p2)) => Some((Datum::Bytes(b), p2)),
            None => None,
        }
    } else if tag == 7 {
        Some((Datum::Dummy, pos + 1))
    } else if tag == 8 {
        Some((Datum::Null, pos + 1))
    } else {
        None
    }
}

/// Reads a tagged error at a position.
#[verifier::rlimit(60)]
fn read_err(bytes: &Vec<u8>, pos: usize) -> (r: Option<(EvalError, usize)>)
    requires
        pos <= bytes@.len(),
    ensures
        match r {
            Some((e, p2)) => pos <= p2 <= bytes@.len() && dec_err(bytes@.skip(pos as int))
                == Some((e@, p2 - pos as int)),
            None => dec_err(bytes@.skip(pos as int)) is None,
        },
{
    let ghost s = bytes@.skip(pos as int);
    if pos >= bytes.len() {
        return None;
    }
    proof {
        assert(s[0] == bytes@[pos as int]);
        assert(s.drop_first() =~= bytes@.skip(pos + 1));
    }
    let tag = bytes[pos];
    if tag == 0 {
        Some((EvalError::DivisionByZero, pos + 1))
    } else if tag == 1 {
        Some((EvalError::NumericFieldOverflow, pos + 1))
    } else if tag == 2 {
        match read_u64(bytes, pos + 1) {
            Some((x, p2)) => Some((EvalError::Int16OutOfRange(x as i64), p2)),
            None => None,
        }
    } else if tag == 3 {
        match read_u64(bytes, pos + 1) {
            Some((x, p2)) => Some((EvalError::Int32OutOfRange(x as i64), p2)),
            None => None,
        }
    } else if tag == 4 {
        match read_u64(bytes, pos + 1) {
            Some((x, p2)) => Some((EvalError::Int64OutOfRange(x as i64), p2)),
            None => None,
        }
    } else if tag == 5 {
        Some((EvalError::InvalidBase64EndSequence, pos + 1))
    } else if tag == 6 {
        match read_str(bytes, pos + 1) {
            Some((st, p2)) => Some((EvalError::InvalidHashAlgorithm(st), p2)),
            None => None,
        }
    } else if tag == 7 {
        Some((EvalError::LikeEscapeTooLong, pos + 1))
    } else if tag == 8 {
        if pos + 1 >= bytes.len() {
            proof {
                assert(bytes@.skip(pos + 1).len() < 1);
            }
            return None;
        }
        let ghost s2 = bytes@.skip(pos + 1);
        proof {
            assert(s2[0] == bytes@[pos + 1]);
            assert(s2.drop_first() =~= bytes@.skip(pos + 2));
        }
        let dtag = bytes[pos + 1];
        if dtag == 0 {
            Some((EvalError::IncompatibleArrayDimensions { dims: None }, pos + 2))
        } else if dtag == 1 {
            match read_u64(bytes, pos + 2) {
                Some((a, p2)) => {
                    proof {
                        assert(s2.skip(9) =~= bytes@.skip(pos + 10));
                    }
                    match read_u64(bytes, p2) {
                        Some((b, p3)) => Some((
                            EvalError::IncompatibleArrayDimensions { dims: Some((a, b)) },
                            p3,
                        )),
                        None => None,
                    }
                }
                None => None,
            }
        } else {
            None
        }
    } else if tag == 9 {
        match read_str(bytes, pos + 1) {
            Some((st, p2)) => Some((EvalError::MustNotBeNull(st), p2)),
            None => None,
        }
    } else if tag == 10 {
        match read_str(bytes, pos + 1) {
            Some((st, p2)) => Some((EvalError::IfNullError(st), p2)),
            None => None,
        }
    } else if tag == 11 {
        match read_str(bytes, pos + 1) {
            Some((st, p2)) => Some((EvalError::Internal(st), p2)),
            None => None,
        }
    } else {
        None
    }
}

/// Reads a column type at a position.
fn read_coltype(bytes: &Vec<u8>, pos: usize) -> (r: Option<(ColumnType, usize)>)
    requires
        pos <= bytes@.len(),
    ensures
        match r {
            Some((t, p2)) => p2 == pos + 2 && p2 <= bytes@.len() && dec_coltype(
                bytes@.skip(pos as int),
            ) == Some((t, 2int)),
            None => dec_coltype(bytes@.skip(pos as int)) is None,
        },
{
    let ghost s = bytes@.skip(pos as int);
    if bytes.len() - pos < 2 {
        return None;
    }
    proof {
        assert(s[0] == bytes@[pos as int]);
        assert(s[1] == bytes@[pos + 1]);
    }
    let rank = bytes[pos];
    let scalar = if rank == 0 {
        Some(ScalarType::Bool)
    } else if rank == 1 {
        Some(ScalarType::Int16)
    } else if rank == 2 {
        Some(ScalarType::Int32)
    } else if rank == 3 {
        Some(ScalarType::Int64)
    } else if rank == 4 {
        Some(ScalarType::String)
    } else if rank == 5 {
        Some(ScalarType::Bytes)
    } else {
        None
    };
    match scalar {
        Some(t) => {
            let nb = bytes[pos + 1];
            if nb == 0 || nb == 1 {
                Some((ColumnType { scalar_type: t, nullable: nb == 1 }, pos + 2))
            } else {
                None
            }
        }
        None => None,
    }
}

/// Reads one encoded literal expression at a position whose byte holds the
/// literal tag.
#[verifier::rlimit(100)]
fn decode_lit_at(bytes: &Vec<u8>, pos: usize) -> (r: Option<(MirScalarExpr, usize)>)
    requires
        pos < bytes@.len(),
        bytes@[pos as int] == 1u8,
    ensures
        match r {
            Some((e, p2)) => pos < p2 <= bytes@.len() && dec_lit_case(bytes@.skip(pos as int))
                == Some((e@, p2 - pos as int)) && rows_ok(e),
            None => dec_lit_case(bytes@.skip(pos as int)) is None,
        },
{
    let ghost s = bytes@.skip(pos as int);
    if bytes.len() - pos < 2 {
        proof {
            assert(s.len() < 2);
        }
        return None;
    }
    proof {
        assert(s[0] == bytes@[pos as int]);
        assert(s[1] == bytes@[pos + 1]);
        assert(s.skip(2) =~= bytes@.skip(pos + 2));
    }
    let which = bytes[pos + 1];
    if which == 0 {
        match read_datum(bytes, pos + 2) {
            Some((d, p2)) => {
                proof {
                    assert(s.skip(2 + (p2 - (pos + 2))) =~= bytes@.skip(p2 as int));
                }
                match read_coltype(bytes, p2) {
                    Some((t, p3)) => Some((
                        MirScalarExpr::Literal(Ok(crate::datum::Row::pack_one(d)), t),
                        p3,
                    )),
                    None => None,
                }
            }
            None => None,
        }
    } else if which == 1 {
        match read_err(bytes, pos + 2) {
            Some((e, p2)) => {
                proof {
                    assert(s.skip(2 + (p2 - (pos + 2))) =~= bytes@.skip(p2 as int));
                }
                match read_coltype(bytes, p2) {
                    Some((t, p3)) => Some((MirScalarExpr::Literal(Err(e), t), p3)),
                    None => None,
                }
            }
            None => None,
        }
    } else {
        None
    }
}

impl MirScalarExpr {
    /// Reads one encoded expression at a position.
    #[verifier::loop_isolation(false)]
    #[verifier::rlimit(100)]
    pub fn decode_at(bytes: &Vec<u8>, pos: usize) -> (r: Option<(MirScalarExpr, usize)>)
        requires
            pos <= bytes@.len(),
        ensures
            match r {
                Some((e, p2)) => pos < p2 <= bytes@.len() && dec_expr(bytes@.skip(pos as int))
                    == Some((e@, p2 - pos as int)) && rows_ok(e),
                None => dec_expr(bytes@.skip(pos as int)) is None,
            },
        decreases bytes@.len() - pos, 1int,
    {
        let ghost s = bytes@.skip(pos as int);
        if pos >= bytes.len() {
            return None;
        }
        proof {
            assert(s[0] == bytes@[pos as int]);
            assert(s.drop_first() =~= bytes@.skip(pos + 1));
            if pos + 2 <= bytes@.len() {
                assert(s.skip(2) =~= bytes@.skip(pos + 2));
            }
        }
        let tag = bytes[pos];
        if tag == 0 {
            return match read_u64(bytes, pos + 1) {
                Some((i, p2)) => {
                    if i <= usize::MAX as u64 {
                        Some((MirScalarExpr::Column(i as usize, None), p2))
                    } else {
                        None
                    }
                }
                None => None,
            };
        } else if tag == 1 {
            return decode_lit_at(bytes, pos);
        } else if tag == 2 {
            if pos + 1 >= bytes.len() {
                return None;
            }
            proof {
                assert(s[1] == bytes@[pos + 1]);
            }
            let rank = bytes[pos + 1];
            let f = if rank == 0 {
                Some(UnmaterializableFunc::CurrentDatabase)
            } else if rank == 1 {
                Some(UnmaterializableFunc::CurrentSchema)
            } else if rank == 2 {
                Some(UnmaterializableFunc::CurrentUser)
            } else if rank == 3 {
                Some(UnmaterializableFunc::IsRbacEnabled)
            } else if rank == 4 {
                Some(UnmaterializableFunc::MzIsSuperuser)
            } else if rank == 5 {
                Some(UnmaterializableFunc::MzVersion)
            } else if rank == 6 {
                Some(UnmaterializableFunc::MzVersionNum)
            } else if rank == 7 {
                Some(UnmaterializableFunc::PgBackendPid)
            } else if rank == 8 {
                Some(UnmaterializableFunc::SessionUser)
            } else if rank == 9 {
                Some(UnmaterializableFunc::Version)
            } else {
                None
            };
            return match f {
                Some(f) => Some((MirScalarExpr::CallUnmaterializable(f), pos + 2)),
                None => None,
            };
        } else if tag == 3 {
            if pos + 1 >= bytes.len() {
                return None;
            }
            proof {
                assert(s[1] == bytes@[pos + 1]);
            }
            let rank = bytes[pos + 1];
            let f = if rank == 0 {
                Some(UnaryFunc::Not)
            } else if rank == 1 {
                Some(UnaryFunc::IsNull)
            } else if rank == 2 {
                Some(UnaryFunc::IsTrue)
            } else if rank == 3 {
                Some(UnaryFunc::IsFalse)
            } else if rank == 4 {
                Some(UnaryFunc::NegInt32)
            } else if rank == 5 {
                Some(UnaryFunc::NegInt64)
            } else if rank == 6 {
                Some(UnaryFunc::CastInt16ToInt32)
            } else if rank == 7 {
                Some(UnaryFunc::CastInt16ToInt64)
            } else if rank == 8 {
                Some(UnaryFunc::CastInt32ToInt64)
            } else if rank == 9 {
                Some(UnaryFunc::CastInt32ToInt16)
            } else if rank == 10 {
                Some(UnaryFunc::CastInt64ToInt16)
            } else if rank == 11 {
                Some(UnaryFunc::CastInt64ToInt32)
            } else {
                None
            };
            return match f {
                Some(f) => match MirScalarExpr::decode_at(bytes, pos + 2) {
                    Some((child, p2)) => Some((
                        MirScalarExpr::CallUnary { func: f, expr: Box::new(child) },
                        p2,
                    )),
                    None => None,
                },
                None => None,
            };
        } else if tag == 4 {
            if pos + 1 >= bytes.len() {
                return None;
            }
            proof {
                assert(s[1] == bytes@[pos + 1]);
            }
            let rank = bytes[pos + 1];
            let f = if rank == 0 {
                Some(BinaryFunc::AddInt16)
            } else if rank == 1 {
                Some(BinaryFunc::AddInt32)
            } else if rank == 2 {
                Some(BinaryFunc::AddInt64)
            } else if rank == 3 {
                Some(BinaryFunc::SubInt16)
            } else if rank == 4 {
                Some(BinaryFunc::SubInt32)
            } else if rank == 5 {
                Some(BinaryFunc::SubInt64)
            } else if rank == 6 {
                Some(BinaryFunc::MulInt16)
            } else if rank == 7 {
                Some(BinaryFunc::MulInt32)
            } else if rank == 8 {
                Some(BinaryFunc::MulInt64)
            } else if rank == 9 {
                Some(BinaryFunc::DivInt16)
            } else if rank == 10 {
                Some(BinaryFunc::DivInt32)
            } else if rank == 11 {
                Some(BinaryFunc::DivInt64)
            } else if rank == 12 {
                Some(BinaryFunc::Eq)
            } else if rank == 13 {
                Some(BinaryFunc::NotEq)
            } else if rank == 14 {
                Some(BinaryFunc::Lt)
            } else if rank == 15 {
                Some(BinaryFunc::Lte)
            } else if rank == 16 {
                Some(BinaryFunc::Gt)
            } else if rank == 17 {
                Some(BinaryFunc::Gte)
            } else if rank == 18 {
                Some(BinaryFunc::IsLikeMatch { case_insensitive: false })
            } else if rank == 19 {
                Some(BinaryFunc::IsLikeMatch { case_insensitive: true })
            } else if rank == 20 {
                Some(BinaryFunc::ConstantTimeEqBytes)
            } else if rank == 21 {
                Some(BinaryFunc::ConstantTimeEqStr)
            } else {
                None
            };
            return match f {
                Some(f) => match MirScalarExpr::decode_at(bytes, pos + 2) {
                    Some((e1, p2)) => {
                        proof {
                            assert(s.skip(2 + (p2 - (pos + 2))) =~= bytes@.skip(p2 as int));
                        }
                        match MirScalarExpr::decode_at(bytes, p2) {
                            Some((e2, p3)) => Some((
                                MirScalarExpr::CallBinary {
                                    func: f,
                                    expr1: Box::new(e1),
                                    expr2: Box::new(e2),
                                },
                                p3,
                            )),
                            None => None,
                        }
                    }
                    None => None,
                },
                None => None,
            };
        } else if tag == 5 {
            return MirScalarExpr::decode_variadic_at(bytes, pos);
        } else if tag == 6 {
            return MirScalarExpr::decode_if_at(bytes, pos);
        } else {
            return None;
        }
    }
}


impl MirScalarExpr {
    /// Reads one encoded variadic call at a position whose byte holds the
    /// variadic tag.
    #[verifier::loop_isolation(false)]
    #[verifier::rlimit(100)]
    fn decode_variadic_at(bytes: &Vec<u8>, pos: usize) -> (r: Option<(MirScalarExpr, usize)>)
        requires
            pos < bytes@.len(),
            bytes@[pos as int] == 5u8,
        ensures
            match r {
                Some((e, p2)) => pos < p2 <= bytes@.len() && dec_expr(bytes@.skip(pos as int))
                    == Some((e@, p2 - pos as int)) && rows_ok(e),
                None => dec_expr(bytes@.skip(pos as int)) is None,
            },
        decreases bytes@.len() - pos, 0int,
    {
        let ghost s = bytes@.skip(pos as int);
        proof {
            assert(s[0] == bytes@[pos as int]);
        }
        if bytes.len() - pos < 10 {
            proof {
                assert(s.len() < 10);
            }
            return None;
        }
        proof {
            assert(s[1] == bytes@[pos + 1]);
            assert(s.skip(2) =~= bytes@.skip(pos + 2));
            assert(s.skip(10) =~= bytes@.skip(pos + 10));
        }
        let rank = bytes[pos + 1];
        let f = if rank == 0 {
            Some(VariadicFunc::Coalesce)
        } else if rank == 1 {
            Some(VariadicFunc::Greatest)
        } else if rank == 2 {
            Some(VariadicFunc::Least)
        } else if rank == 3 {
            Some(VariadicFunc::And)
        } else if rank == 4 {
            Some(VariadicFunc::Or)
        } else if rank == 5 {
            Some(VariadicFunc::ErrorIfNull)
        } else if rank == 6 {
            Some(VariadicFunc::HmacString)
        } else if rank == 7 {
            Some(VariadicFunc::HmacBytes)
        } else {
            None
        };
        match f {
            Some(f) => match read_u64(bytes, pos + 2) {
                Some((n, p10)) => {
                    let mut es: Vec<MirScalarExpr> = Vec::new();
                    let mut cur: usize = p10;
                    let mut remaining: u64 = n;
                    let ghost base = bytes@.skip(pos + 10);
                    proof {
                        lemma_views_of(es@);
                        lemma_rows_ok_list(es@);
                        assert(views_of(es@) =~= Seq::<ExprV>::empty());
                    }
                    loop
                        invariant
                            pos + 10 <= cur <= bytes@.len(),
                            remaining <= n,
                            rows_ok_list(es@),
                            dec_list(base, n as int) == (match dec_list(
                                bytes@.skip(cur as int),
                                remaining as int,
                            ) {
                                Some((tail, c)) => Some(
                                    (views_of(es@) + tail, (cur - (pos + 10)) + c),
                                ),
                                None => None::<(Seq<ExprV>, int)>,
                            }),
                        decreases remaining,
                    {
                        if remaining == 0 {
                            break;
                        }
                        match MirScalarExpr::decode_at(bytes, cur) {
                            Some((child, p2)) => {
                                proof {
                                    lemma_views_of(es@);
                                    lemma_rows_ok_list(es@);
                                }
                                let ghost olds = es@;
                                es.push(child);
                                proof {
                                    lemma_views_of(es@);
                                    assert(views_of(es@) =~= views_of(olds).push(child@));
                                    lemma_rows_ok_list(es@);
                                    assert(bytes@.skip(cur as int).skip(p2 - cur) =~= bytes@.skip(
                                        p2 as int,
                                    ));
                                    assert(views_of(olds) + (seq![child@].add(
                                        match dec_list(bytes@.skip(p2 as int), remaining - 1) {
                                            Some((t2, _)) => t2,
                                            None => Seq::empty(),
                                        },
                                    )) =~= views_of(es@) + (match dec_list(
                                        bytes@.skip(p2 as int),
                                        remaining - 1,
                                    ) {
                                        Some((t2, _)) => t2,
                                        None => Seq::empty(),
                                    }));
                                }
                                cur = p2;
                                remaining = remaining - 1;
                            }
                            None => {
                                return None;
                            }
                        }
                    }
                    proof {
                        lemma_views_of(es@);
                        assert(dec_list(bytes@.skip(cur as int), 0int) == Some((
                            Seq::<ExprV>::empty(),
                            0int,
                        )));
                        assert(views_of(es@) + Seq::<ExprV>::empty() =~= views_of(es@));
                    }
                    Some((MirScalarExpr::CallVariadic { func: f, exprs: es }, cur))
                }
                None => None,
            },
            None => None,
        }
    }
}


impl MirScalarExpr {
    /// Reads one encoded conditional at a position whose byte holds the
    /// conditional tag.
    #[verifier::rlimit(100)]
    fn decode_if_at(bytes: &Vec<u8>, pos: usize) -> (r: Option<(MirScalarExpr, usize)>)
        requires
            pos < bytes@.len(),
            bytes@[pos as int] == 6u8,
        ensures
            match r {
                Some((e, p2)) => pos < p2 <= bytes@.len() && dec_expr(bytes@.skip(pos as int))
                    == Some((e@, p2 - pos as int)) && rows_ok(e),
                None => dec_expr(bytes@.skip(pos as int)) is None,
            },
        decreases bytes@.len() - pos, 0int,
    {
        let ghost s = bytes@.skip(pos as int);
        proof {
            assert(s[0] == bytes@[pos as int]);
            assert(s.drop_first() =~= bytes@.skip(pos + 1));
        }
        if pos >= bytes.len() {
            return None;
        }
        match MirScalarExpr::decode_at(bytes, pos + 1) {
            Some((c0, p1)) => {
                proof {
                    assert(s.skip(p1 - pos) =~= bytes@.skip(p1 as int));
                }
                match MirScalarExpr::decode_at(bytes, p1) {
                    Some((t0, p2)) => {
                        proof {
                            assert(s.skip(p2 - pos) =~= bytes@.skip(p2 as int));
                        }
                        match MirScalarExpr::decode_at(bytes, p2) {
                            Some((f0, p3)) => {
                                let r0 = MirScalarExpr::If {
                                    cond: Box::new(c0),
                                    when_true: Box::new(t0),
                                    when_false: Box::new(f0),
                                };
                                proof {
                                    assert(dec_if_case(s) == Some((r0@, p3 - pos as int)));
                                    assert(dec_expr(s) == Some((r0@, p3 - pos as int)));
                                }
                                Some((r0, p3))
                            }
                            None => None,
                        }
                    }
                    None => None,
                }
            }
            None => None,
        }
    }
}

} // verus!