//! The three closed catalogs of scalar functions (unary, binary, variadic)
//! and the catalog of unmaterializable placeholders. Each function carries
//! declared behavioral properties consumed by the evaluator and the
//! simplifier, an output type, and its value-level semantics: a spec
//! function says exactly what each call returns, and the executable
//! dispatcher is proved to follow it.

use vstd::prelude::*;

use crate::{ColumnType, ScalarType};
use crate::datum::{Datum, DatumV, datum_cmp_spec, lemma_datum_cmp_eq};
use crate::error::{EvalError, ErrV, seq_max_err};
use crate::like::{like_match_with, like_matches};
use crate::order::Ord3;
use crate::trusted;

verus! {

/// A placeholder for a value not known at plan time; it must be replaced by
/// a literal before evaluation.
#[derive(Clone, Copy, Debug, PartialEq, Eq, Hash, Structural)]
pub enum UnmaterializableFunc {
    CurrentDatabase,
    CurrentSchema,
    CurrentUser,
    IsRbacEnabled,
    MzIsSuperuser,
    MzVersion,
    MzVersionNum,
    PgBackendPid,
    SessionUser,
    Version,
}

impl UnmaterializableFunc {
    /// The type of the value the placeholder will be replaced by.
    pub fn output_type(&self) -> (r: ColumnType)
        ensures
            r == self.output_type_spec(),
    {
        match self {
            UnmaterializableFunc::CurrentDatabase => ScalarType::String.nullable(false),
            UnmaterializableFunc::CurrentSchema => ScalarType::String.nullable(true),
            UnmaterializableFunc::CurrentUser => ScalarType::String.nullable(false),
            UnmaterializableFunc::IsRbacEnabled => ScalarType::Bool.nullable(false),
            UnmaterializableFunc::MzIsSuperuser => ScalarType::Bool.nullable(false),
            UnmaterializableFunc::MzVersion => ScalarType::String.nullable(false),
            UnmaterializableFunc::MzVersionNum => ScalarType::Int32.nullable(false),
            UnmaterializableFunc::PgBackendPid => ScalarType::Int32.nullable(false),
            UnmaterializableFunc::SessionUser => ScalarType::String.nullable(false),
            UnmaterializableFunc::Version => ScalarType::String.nullable(false),
        }
    }

    /// What `output_type` returns.
    pub open spec fn output_type_spec(self) -> ColumnType {
        match self {
            UnmaterializableFunc::CurrentSchema => ColumnType {
                scalar_type: ScalarType::String,
                nullable: true,
            },
            UnmaterializableFunc::IsRbacEnabled | UnmaterializableFunc::MzIsSuperuser => {
                ColumnType { scalar_type: ScalarType::Bool, nullable: false }
            }
            UnmaterializableFunc::MzVersionNum | UnmaterializableFunc::PgBackendPid => {
                ColumnType { scalar_type: ScalarType::Int32, nullable: false }
            }
            _ => ColumnType { scalar_type: ScalarType::String, nullable: false },
        }
    }
}

/// A function of one argument.
#[derive(Clone, Copy, Debug, PartialEq, Eq, Hash, Structural)]
pub enum UnaryFunc {
    Not,
    IsNull,
    IsTrue,
    IsFalse,
    NegInt32,
    NegInt64,
    CastInt16ToInt32,
    CastInt16ToInt64,
    CastInt32ToInt64,
    CastInt32ToInt16,
    CastInt64ToInt16,
    CastInt64ToInt32,
}

/// A function of two arguments.
#[derive(Clone, Copy, Debug, PartialEq, Eq, Hash, Structural)]
pub enum BinaryFunc {
    AddInt16,
    AddInt32,
    AddInt64,
    SubInt16,
    SubInt32,
    SubInt64,
    MulInt16,
    MulInt32,
    MulInt64,
    DivInt16,
    DivInt32,
    DivInt64,
    Eq,
    NotEq,
    Lt,
    Lte,
    Gt,
    Gte,
    IsLikeMatch { case_insensitive: bool },
    ConstantTimeEqBytes,
    ConstantTimeEqStr,
}

/// A function of any number of arguments.
#[derive(Clone, Copy, Debug, PartialEq, Eq, Hash, Structural)]
pub enum VariadicFunc {
    Coalesce,
    Greatest,
    Least,
    And,
    Or,
    ErrorIfNull,
    HmacString,
    HmacBytes,
}

/// The error evaluation reports when a function meets an argument of a kind
/// the planner's typing contract rules out.
pub open spec fn type_err() -> ErrV {
    ErrV::Internal("invalid input type for function call"@)
}

/// Builds the error `type_err` names.
pub fn mk_type_err() -> (r: EvalError)
    ensures
        r@ == type_err(),
{
    EvalError::Internal(String::from_str("invalid input type for function call"))
}

/// What a unary function returns on an already evaluated argument.
pub open spec fn unary_apply(f: UnaryFunc, d: DatumV) -> Result<DatumV, ErrV> {
    match f {
        UnaryFunc::Not => match d {
            DatumV::True => Ok(DatumV::False),
            DatumV::False => Ok(DatumV::True),
            DatumV::Null => Ok(DatumV::Null),
            _ => Err(type_err()),
        },
        UnaryFunc::IsNull => Ok(if d is Null {
            DatumV::True
        } else {
            DatumV::False
        }),
        UnaryFunc::IsTrue => Ok(if d is True {
            DatumV::True
        } else {
            DatumV::False
        }),
        UnaryFunc::IsFalse => Ok(if d is False {
            DatumV::True
        } else {
            DatumV::False
        }),
        UnaryFunc::NegInt32 => match d {
            DatumV::Int32(x) => if x == i32::MIN {
                Err(ErrV::Int32OutOfRange(x as i64))
            } else {
                Ok(DatumV::Int32((-(x as int)) as i32))
            },
            _ => Err(type_err()),
        },
        UnaryFunc::NegInt64 => match d {
            DatumV::Int64(x) => if x == i64::MIN {
                Err(ErrV::Int64OutOfRange(x))
            } else {
                Ok(DatumV::Int64((-(x as int)) as i64))
            },
            _ => Err(type_err()),
        },
        UnaryFunc::CastInt16ToInt32 => match d {
            DatumV::Int16(x) => Ok(DatumV::Int32(x as i32)),
            _ => Err(type_err()),
        },
        UnaryFunc::CastInt16ToInt64 => match d {
            DatumV::Int16(x) => Ok(DatumV::Int64(x as i64)),
            _ => Err(type_err()),
        },
        UnaryFunc::CastInt32ToInt64 => match d {
            DatumV::Int32(x) => Ok(DatumV::Int64(x as i64)),
            _ => Err(type_err()),
        },
        UnaryFunc::CastInt32ToInt16 => match d {
            DatumV::Int32(x) => if i16::MIN <= x && x <= i16::MAX {
                Ok(DatumV::Int16(x as i16))
            } else {
                Err(ErrV::Int16OutOfRange(x as i64))
            },
            _ => Err(type_err()),
        },
        UnaryFunc::CastInt64ToInt16 => match d {
            DatumV::Int64(x) => if i16::MIN <= x && x <= i16::MAX {
                Ok(DatumV::Int16(x as i16))
            } else {
                Err(ErrV::Int16OutOfRange(x))
            },
            _ => Err(type_err()),
        },
        UnaryFunc::CastInt64ToInt32 => match d {
            DatumV::Int64(x) => if i32::MIN <= x && x <= i32::MAX {
                Ok(DatumV::Int32(x as i32))
            } else {
                Err(ErrV::Int32OutOfRange(x))
            },
            _ => Err(type_err()),
        },
    }
}

impl UnaryFunc {
    /// Whether a NULL argument makes the result NULL without invoking the
    /// function.
    pub fn propagates_nulls(&self) -> (r: bool)
        ensures
            r == self.propagates_nulls_spec(),
    {
        !matches!(self, UnaryFunc::IsNull | UnaryFunc::IsTrue | UnaryFunc::IsFalse)
    }

    /// What `propagates_nulls` returns.
    pub open spec fn propagates_nulls_spec(self) -> bool {
        !(self is IsNull || self is IsTrue || self is IsFalse)
    }

    /// Whether the result may be NULL although no argument was.
    pub fn introduces_nulls(&self) -> (r: bool)
        ensures
            r == self.introduces_nulls_spec(),
    {
        false
    }

    /// What `introduces_nulls` returns.
    pub open spec fn introduces_nulls_spec(self) -> bool {
        false
    }

    /// Whether the function can fail on well-typed, non-error input.
    pub fn could_error(&self) -> (r: bool)
        ensures
            r == self.could_error_spec(),
    {
        matches!(
            self,
            UnaryFunc::NegInt32 | UnaryFunc::NegInt64 | UnaryFunc::CastInt32ToInt16
                | UnaryFunc::CastInt64ToInt16 | UnaryFunc::CastInt64ToInt32,
        )
    }

    /// What `could_error` returns.
    pub open spec fn could_error_spec(self) -> bool {
        self is NegInt32 || self is NegInt64 || self is CastInt32ToInt16
            || self is CastInt64ToInt16 || self is CastInt64ToInt32
    }

    /// Whether distinct arguments always give distinct non-error results.
    pub fn preserves_uniqueness(&self) -> (r: bool)
        ensures
            r == self.preserves_uniqueness_spec(),
    {
        !matches!(self, UnaryFunc::IsNull | UnaryFunc::IsTrue | UnaryFunc::IsFalse)
    }

    /// What `preserves_uniqueness` returns.
    pub open spec fn preserves_uniqueness_spec(self) -> bool {
        !(self is IsNull || self is IsTrue || self is IsFalse)
    }

    /// The function that undoes this one, where the catalog records one.
    pub fn inverse(&self) -> (r: Option<UnaryFunc>)
        ensures
            r == self.inverse_spec(),
    {
        match self {
            UnaryFunc::Not => Some(UnaryFunc::Not),
            UnaryFunc::NegInt32 => Some(UnaryFunc::NegInt32),
            UnaryFunc::NegInt64 => Some(UnaryFunc::NegInt64),
            UnaryFunc::CastInt16ToInt32 => Some(UnaryFunc::CastInt32ToInt16),
            UnaryFunc::CastInt16ToInt64 => Some(UnaryFunc::CastInt64ToInt16),
            UnaryFunc::CastInt32ToInt64 => Some(UnaryFunc::CastInt64ToInt32),
            UnaryFunc::CastInt32ToInt16 => Some(UnaryFunc::CastInt16ToInt32),
            UnaryFunc::CastInt64ToInt16 => Some(UnaryFunc::CastInt16ToInt64),
            UnaryFunc::CastInt64ToInt32 => Some(UnaryFunc::CastInt32ToInt64),
            _ => None,
        }
    }

    /// What `inverse` returns.
    pub open spec fn inverse_spec(self) -> Option<UnaryFunc> {
        match self {
            UnaryFunc::Not => Some(UnaryFunc::Not),
            UnaryFunc::NegInt32 => Some(UnaryFunc::NegInt32),
            UnaryFunc::NegInt64 => Some(UnaryFunc::NegInt64),
            UnaryFunc::CastInt16ToInt32 => Some(UnaryFunc::CastInt32ToInt16),
            UnaryFunc::CastInt16ToInt64 => Some(UnaryFunc::CastInt64ToInt16),
            UnaryFunc::CastInt32ToInt64 => Some(UnaryFunc::CastInt64ToInt32),
            UnaryFunc::CastInt32ToInt16 => Some(UnaryFunc::CastInt16ToInt32),
            UnaryFunc::CastInt64ToInt16 => Some(UnaryFunc::CastInt16ToInt64),
            UnaryFunc::CastInt64ToInt32 => Some(UnaryFunc::CastInt32ToInt64),
            _ => Option::None,
        }
    }

    /// Whether the function is pointwise non-strictly monotone.
    pub fn is_monotone(&self) -> (r: bool)
        ensures
            r == self.is_monotone_spec(),
    {
        !matches!(self, UnaryFunc::IsNull | UnaryFunc::IsTrue | UnaryFunc::IsFalse)
    }

    /// What `is_monotone` returns.
    pub open spec fn is_monotone_spec(self) -> bool {
        !(self is IsNull || self is IsTrue || self is IsFalse)
    }

    /// If the function tests "IS X", the X it tests for.
    pub fn is(&self) -> (r: Option<&'static str>)
        ensures
            match r {
                Some(s) => (self is IsNull && s@ == "NULL"@) || (self is IsTrue && s@ == "TRUE"@)
                    || (self is IsFalse && s@ == "FALSE"@),
                None => !(self is IsNull || self is IsTrue || self is IsFalse),
            },
    {
        match self {
            UnaryFunc::IsNull => Some("NULL"),
            UnaryFunc::IsTrue => Some("TRUE"),
            UnaryFunc::IsFalse => Some("FALSE"),
            _ => None,
        }
    }

    /// The column type of the result, from the argument's column type.
    pub fn output_type(&self, input_type: ColumnType) -> (r: ColumnType)
        ensures
            r == self.output_type_spec(input_type),
    {
        match self {
            UnaryFunc::Not => ScalarType::Bool.nullable(input_type.nullable),
            UnaryFunc::IsNull | UnaryFunc::IsTrue | UnaryFunc::IsFalse => ScalarType::Bool.nullable(
                false,
            ),
            UnaryFunc::NegInt32 => ScalarType::Int32.nullable(input_type.nullable),
            UnaryFunc::NegInt64 => ScalarType::Int64.nullable(input_type.nullable),
            UnaryFunc::CastInt16ToInt32 => ScalarType::Int32.nullable(input_type.nullable),
            UnaryFunc::CastInt16ToInt64 => ScalarType::Int64.nullable(input_type.nullable),
            UnaryFunc::CastInt32ToInt64 => ScalarType::Int64.nullable(input_type.nullable),
            UnaryFunc::CastInt32ToInt16 => ScalarType::Int16.nullable(input_type.nullable),
            UnaryFunc::CastInt64ToInt16 => ScalarType::Int16.nullable(input_type.nullable),
            UnaryFunc::CastInt64ToInt32 => ScalarType::Int32.nullable(input_type.nullable),
        }
    }

    /// What `output_type` returns.
    pub open spec fn output_type_spec(self, input_type: ColumnType) -> ColumnType {
        let nullable = if self.propagates_nulls_spec() {
            input_type.nullable
        } else {
            false
        };
        ColumnType { scalar_type: self.output_scalar_type(), nullable }
    }

    /// The scalar type of the result.
    pub open spec fn output_scalar_type(self) -> ScalarType {
        match self {
            UnaryFunc::Not | UnaryFunc::IsNull | UnaryFunc::IsTrue | UnaryFunc::IsFalse => {
                ScalarType::Bool
            }
            UnaryFunc::NegInt32 | UnaryFunc::CastInt16ToInt32 | UnaryFunc::CastInt64ToInt32 => {
                ScalarType::Int32
            }
            UnaryFunc::NegInt64 | UnaryFunc::CastInt16ToInt64 | UnaryFunc::CastInt32ToInt64 => {
                ScalarType::Int64
            }
            UnaryFunc::CastInt32ToInt16 | UnaryFunc::CastInt64ToInt16 => ScalarType::Int16,
        }
    }

    /// The scalar type of the result.
    pub fn output_scalar(&self) -> (r: ScalarType)
        ensures
            r == self.output_scalar_type(),
    {
        match self {
            UnaryFunc::Not | UnaryFunc::IsNull | UnaryFunc::IsTrue | UnaryFunc::IsFalse => {
                ScalarType::Bool
            }
            UnaryFunc::NegInt32 | UnaryFunc::CastInt16ToInt32 | UnaryFunc::CastInt64ToInt32 => {
                ScalarType::Int32
            }
            UnaryFunc::NegInt64 | UnaryFunc::CastInt16ToInt64 | UnaryFunc::CastInt32ToInt64 => {
                ScalarType::Int64
            }
            UnaryFunc::CastInt32ToInt16 | UnaryFunc::CastInt64ToInt16 => ScalarType::Int16,
        }
    }

    /// Applies the function to an already evaluated argument.
    pub fn apply(&self, d: &Datum) -> (r: Result<Datum, EvalError>)
        ensures
            res_view(r) == unary_apply(*self, d@),
    {
        match self {
            UnaryFunc::Not => match d {
                Datum::True => Ok(Datum::False),
                Datum::False => Ok(Datum::True),
                Datum::Null => Ok(Datum::Null),
                _ => Err(mk_type_err()),
            },
            UnaryFunc::IsNull => Ok(if d.is_null() {
                Datum::True
            } else {
                Datum::False
            }),
            UnaryFunc::IsTrue => Ok(if matches!(d, Datum::True) {
                Datum::True
            } else {
                Datum::False
            }),
            UnaryFunc::IsFalse => Ok(if matches!(d, Datum::False) {
                Datum::True
            } else {
                Datum::False
            }),
            UnaryFunc::NegInt32 => match d {
                Datum::Int32(x) => if *x == i32::MIN {
                    Err(EvalError::Int32OutOfRange(*x as i64))
                } else {
                    Ok(Datum::Int32(-*x))
                },
                _ => Err(mk_type_err()),
            },
            UnaryFunc::NegInt64 => match d {
                Datum::Int64(x) => if *x == i64::MIN {
                    Err(EvalError::Int64OutOfRange(*x))
                } else {
                    Ok(Datum::Int64(-*x))
                },
                _ => Err(mk_type_err()),
            },
            UnaryFunc::CastInt16ToInt32 => match d {
                Datum::Int16(x) => Ok(Datum::Int32(*x as i32)),
                _ => Err(mk_type_err()),
            },
            UnaryFunc::CastInt16ToInt64 => match d {
                Datum::Int16(x) => Ok(Datum::Int64(*x as i64)),
                _ => Err(mk_type_err()),
            },
            UnaryFunc::CastInt32ToInt64 => match d {
                Datum::Int32(x) => Ok(Datum::Int64(*x as i64)),
                _ => Err(mk_type_err()),
            },
            UnaryFunc::CastInt32ToInt16 => match d {
                Datum::Int32(x) => if i16::MIN as i32 <= *x && *x <= i16::MAX as i32 {
                    Ok(Datum::Int16(*x as i16))
                } else {
                    Err(EvalError::Int16OutOfRange(*x as i64))
                },
                _ => Err(mk_type_err()),
            },
            UnaryFunc::CastInt64ToInt16 => match d {
                Datum::Int64(x) => if i16::MIN as i64 <= *x && *x <= i16::MAX as i64 {
                    Ok(Datum::Int16(*x as i16))
                } else {
                    Err(EvalError::Int16OutOfRange(*x))
                },
                _ => Err(mk_type_err()),
            },
            UnaryFunc::CastInt64ToInt32 => match d {
                Datum::Int64(x) => if i32::MIN as i64 <= *x && *x <= i32::MAX as i64 {
                    Ok(Datum::Int32(*x as i32))
                } else {
                    Err(EvalError::Int32OutOfRange(*x))
                },
                _ => Err(mk_type_err()),
            },
        }
    }
}

/// The model of an evaluation outcome.
pub open spec fn res_view(r: Result<Datum, EvalError>) -> Result<DatumV, ErrV> {
    match r {
        Ok(d) => Ok(d@),
        Err(e) => Err(e@),
    }
}

/// What a binary function returns on already evaluated, non-NULL arguments.
pub open spec fn binary_apply(f: BinaryFunc, a: DatumV, b: DatumV) -> Result<DatumV, ErrV> {
    match f {
        BinaryFunc::AddInt16 => match (a, b) {
            (DatumV::Int16(x), DatumV::Int16(y)) => if i16::MIN <= x + y <= i16::MAX {
                Ok(DatumV::Int16((x + y) as i16))
            } else {
                Err(ErrV::NumericFieldOverflow)
            },
            _ => Err(type_err()),
        },
        BinaryFunc::AddInt32 => match (a, b) {
            (DatumV::Int32(x), DatumV::Int32(y)) => if i32::MIN <= x + y <= i32::MAX {
                Ok(DatumV::Int32((x + y) as i32))
            } else {
                Err(ErrV::NumericFieldOverflow)
            },
            _ => Err(type_err()),
        },
        BinaryFunc::AddInt64 => match (a, b) {
            (DatumV::Int64(x), DatumV::Int64(y)) => if i64::MIN <= x + y <= i64::MAX {
                Ok(DatumV::Int64((x + y) as i64))
            } else {
                Err(ErrV::NumericFieldOverflow)
            },
            _ => Err(type_err()),
        },
        BinaryFunc::SubInt16 => match (a, b) {
            (DatumV::Int16(x), DatumV::Int16(y)) => if i16::MIN <= x - y <= i16::MAX {
                Ok(DatumV::Int16((x - y) as i16))
            } else {
                Err(ErrV::NumericFieldOverflow)
            },
            _ => Err(type_err()),
        },
        BinaryFunc::SubInt32 => match (a, b) {
            (DatumV::Int32(x), DatumV::Int32(y)) => if i32::MIN <= x - y <= i32::MAX {
                Ok(DatumV::Int32((x - y) as i32))
            } else {
                Err(ErrV::NumericFieldOverflow)
            },
            _ => Err(type_err()),
        },
        BinaryFunc::SubInt64 => match (a, b) {
            (DatumV::Int64(x), DatumV::Int64(y)) => if i64::MIN <= x - y <= i64::MAX {
                Ok(DatumV::Int64((x - y) as i64))
            } else {
                Err(ErrV::NumericFieldOverflow)
            },
            _ => Err(type_err()),
        },
        BinaryFunc::MulInt16 => match (a, b) {
            (DatumV::Int16(x), DatumV::Int16(y)) => if i16::MIN <= x * y <= i16::MAX {
                Ok(DatumV::Int16((x * y) as i16))
            } else {
                Err(ErrV::NumericFieldOverflow)
            },
            _ => Err(type_err()),
        },
        BinaryFunc::MulInt32 => match (a, b) {
            (DatumV::Int32(x), DatumV::Int32(y)) => if i32::MIN <= x * y <= i32::MAX {
                Ok(DatumV::Int32((x * y) as i32))
            } else {
                Err(ErrV::NumericFieldOverflow)
            },
            _ => Err(type_err()),
        },
        BinaryFunc::MulInt64 => match (a, b) {
            (DatumV::Int64(x), DatumV::Int64(y)) => if i64::MIN <= x * y <= i64::MAX {
                Ok(DatumV::Int64((x * y) as i64))
            } else {
                Err(ErrV::NumericFieldOverflow)
            },
            _ => Err(type_err()),
        },
        BinaryFunc::DivInt16 => match (a, b) {
            (DatumV::Int16(x), DatumV::Int16(y)) => if y == 0 {
                Err(ErrV::DivisionByZero)
            } else if x == i16::MIN && y == -1 {
                Err(ErrV::NumericFieldOverflow)
            } else {
                Ok(DatumV::Int16(trunc_div(x as int, y as int) as i16))
            },
            _ => Err(type_err()),
        },
        BinaryFunc::DivInt32 => match (a, b) {
            (DatumV::Int32(x), DatumV::Int32(y)) => if y == 0 {
                Err(ErrV::DivisionByZero)
            } else if x == i32::MIN && y == -1 {
                Err(ErrV::NumericFieldOverflow)
            } else {
                Ok(DatumV::Int32(trunc_div(x as int, y as int) as i32))
            },
            _ => Err(type_err()),
        },
        BinaryFunc::DivInt64 => match (a, b) {
            (DatumV::Int64(x), DatumV::Int64(y)) => if y == 0 {
                Err(ErrV::DivisionByZero)
            } else if x == i64::MIN && y == -1 {
                Err(ErrV::NumericFieldOverflow)
            } else {
                Ok(DatumV::Int64(trunc_div(x as int, y as int) as i64))
            },
            _ => Err(type_err()),
        },
        BinaryFunc::Eq => Ok(bool_datum(a == b)),
        BinaryFunc::NotEq => Ok(bool_datum(a != b)),
        BinaryFunc::Lt => Ok(bool_datum(datum_cmp_spec(a, b) == Ord3::Less)),
        BinaryFunc::Lte => Ok(bool_datum(datum_cmp_spec(a, b) != Ord3::Greater)),
        BinaryFunc::Gt => Ok(bool_datum(datum_cmp_spec(a, b) == Ord3::Greater)),
        BinaryFunc::Gte => Ok(bool_datum(datum_cmp_spec(a, b) != Ord3::Less)),
        BinaryFunc::IsLikeMatch { case_insensitive } => match (a, b) {
            (DatumV::Str(text), DatumV::Str(pattern)) => Ok(
                bool_datum(like_match_with(pattern, text, case_insensitive)),
            ),
            _ => Err(type_err()),
        },
        BinaryFunc::ConstantTimeEqBytes => match (a, b) {
            (DatumV::Bytes(x), DatumV::Bytes(y)) => Ok(bool_datum(x == y)),
            _ => Err(type_err()),
        },
        BinaryFunc::ConstantTimeEqStr => match (a, b) {
            (DatumV::Str(x), DatumV::Str(y)) => Ok(bool_datum(x == y)),
            _ => Err(type_err()),
        },
    }
}

/// The magnitude of an integer.
pub open spec fn abs_int(x: int) -> int {
    if x < 0 {
        -x
    } else {
        x
    }
}

/// Division truncating toward zero, as SQL divides: the quotient of the
/// magnitudes, with the sign of the exact ratio.
pub open spec fn trunc_div(x: int, y: int) -> int {
    let q = abs_int(x) / abs_int(y);
    if (x < 0) != (y < 0) {
        -q
    } else {
        q
    }
}

/// The boolean value as a datum.
pub open spec fn bool_datum(b: bool) -> DatumV {
    if b {
        DatumV::True
    } else {
        DatumV::False
    }
}

/// Builds the boolean datum.
pub fn mk_bool_datum(b: bool) -> (r: Datum)
    ensures
        r@ == bool_datum(b),
{
    if b {
        Datum::True
    } else {
        Datum::False
    }
}

impl BinaryFunc {
    /// Whether a NULL argument makes the result NULL without invoking the
    /// function; every binary function of the catalog does.
    pub fn propagates_nulls(&self) -> (r: bool)
        ensures
            r == self.propagates_nulls_spec(),
    {
        true
    }

    /// What `propagates_nulls` returns.
    pub open spec fn propagates_nulls_spec(self) -> bool {
        true
    }

    /// Whether the result may be NULL although no argument was; for no
    /// binary function of the catalog it may.
    pub fn introduces_nulls(&self) -> (r: bool)
        ensures
            r == self.introduces_nulls_spec(),
    {
        false
    }

    /// What `introduces_nulls` returns.
    pub open spec fn introduces_nulls_spec(self) -> bool {
        false
    }

    /// Whether the function can fail on well-typed, non-error input.
    pub fn could_error(&self) -> (r: bool)
        ensures
            r == self.could_error_spec(),
    {
        !matches!(
            self,
            BinaryFunc::Eq | BinaryFunc::NotEq | BinaryFunc::Lt | BinaryFunc::Lte | BinaryFunc::Gt
                | BinaryFunc::Gte | BinaryFunc::IsLikeMatch { .. }
                | BinaryFunc::ConstantTimeEqBytes | BinaryFunc::ConstantTimeEqStr,
        )
    }

    /// What `could_error` returns.
    pub open spec fn could_error_spec(self) -> bool {
        !(self is Eq || self is NotEq || self is Lt || self is Lte || self is Gt || self is Gte
            || self is IsLikeMatch || self is ConstantTimeEqBytes || self is ConstantTimeEqStr)
    }

    /// Whether the function renders as an infix operator.
    pub fn is_infix_op(&self) -> (r: bool)
        ensures
            r == self.is_infix_op_spec(),
    {
        !matches!(self, BinaryFunc::ConstantTimeEqBytes | BinaryFunc::ConstantTimeEqStr)
    }

    /// What `is_infix_op` returns.
    pub open spec fn is_infix_op_spec(self) -> bool {
        !(self is ConstantTimeEqBytes || self is ConstantTimeEqStr)
    }

    /// The comparison whose answer is the negation of this one, where there
    /// is one.
    pub fn negate(&self) -> (r: Option<BinaryFunc>)
        ensures
            r == self.negate_spec(),
    {
        match self {
            BinaryFunc::Eq => Some(BinaryFunc::NotEq),
            BinaryFunc::NotEq => Some(BinaryFunc::Eq),
            BinaryFunc::Lt => Some(BinaryFunc::Gte),
            BinaryFunc::Gte => Some(BinaryFunc::Lt),
            BinaryFunc::Gt => Some(BinaryFunc::Lte),
            BinaryFunc::Lte => Some(BinaryFunc::Gt),
            _ => None,
        }
    }

    /// What `negate` returns.
    pub open spec fn negate_spec(self) -> Option<BinaryFunc> {
        match self {
            BinaryFunc::Eq => Some(BinaryFunc::NotEq),
            BinaryFunc::NotEq => Some(BinaryFunc::Eq),
            BinaryFunc::Lt => Some(BinaryFunc::Gte),
            BinaryFunc::Gte => Some(BinaryFunc::Lt),
            BinaryFunc::Gt => Some(BinaryFunc::Lte),
            BinaryFunc::Lte => Some(BinaryFunc::Gt),
            _ => Option::None,
        }
    }

    /// Whether the function is pointwise non-strictly monotone in each of
    /// its two arguments.
    pub fn is_monotone(&self) -> (r: (bool, bool))
        ensures
            r == self.is_monotone_spec(),
    {
        match self {
            BinaryFunc::AddInt16 | BinaryFunc::AddInt32 | BinaryFunc::AddInt64
            | BinaryFunc::SubInt16 | BinaryFunc::SubInt32 | BinaryFunc::SubInt64 => (true, true),
            BinaryFunc::MulInt16 | BinaryFunc::MulInt32 | BinaryFunc::MulInt64 => (false, false),
            BinaryFunc::DivInt16 | BinaryFunc::DivInt32 | BinaryFunc::DivInt64 => (true, false),
            BinaryFunc::Eq | BinaryFunc::NotEq => (false, false),
            BinaryFunc::Lt | BinaryFunc::Lte | BinaryFunc::Gt | BinaryFunc::Gte => (true, true),
            BinaryFunc::IsLikeMatch { .. } => (false, false),
            BinaryFunc::ConstantTimeEqBytes | BinaryFunc::ConstantTimeEqStr => (false, false),
        }
    }

    /// What `is_monotone` returns.
    pub open spec fn is_monotone_spec(self) -> (bool, bool) {
        match self {
            BinaryFunc::AddInt16 | BinaryFunc::AddInt32 | BinaryFunc::AddInt64
            | BinaryFunc::SubInt16 | BinaryFunc::SubInt32 | BinaryFunc::SubInt64 => (true, true),
            BinaryFunc::MulInt16 | BinaryFunc::MulInt32 | BinaryFunc::MulInt64 => (false, false),
            BinaryFunc::DivInt16 | BinaryFunc::DivInt32 | BinaryFunc::DivInt64 => (true, false),
            BinaryFunc::Lt | BinaryFunc::Lte | BinaryFunc::Gt | BinaryFunc::Gte => (true, true),
            _ => (false, false),
        }
    }

    /// The column type of the result, from the arguments' column types.
    pub fn output_type(&self, input1: ColumnType, input2: ColumnType) -> (r: ColumnType)
        ensures
            r == self.output_type_spec(input1, input2),
    {
        let nullable = input1.nullable || input2.nullable;
        match self {
            BinaryFunc::AddInt16 | BinaryFunc::SubInt16 | BinaryFunc::MulInt16
            | BinaryFunc::DivInt16 => ScalarType::Int16.nullable(nullable),
            BinaryFunc::AddInt32 | BinaryFunc::SubInt32 | BinaryFunc::MulInt32
            | BinaryFunc::DivInt32 => ScalarType::Int32.nullable(nullable),
            BinaryFunc::AddInt64 | BinaryFunc::SubInt64 | BinaryFunc::MulInt64
            | BinaryFunc::DivInt64 => ScalarType::Int64.nullable(nullable),
            _ => ScalarType::Bool.nullable(nullable),
        }
    }

    /// What `output_type` returns.
    pub open spec fn output_type_spec(self, input1: ColumnType, input2: ColumnType) -> ColumnType {
        let nullable = input1.nullable || input2.nullable;
        let scalar_type = match self {
            BinaryFunc::AddInt16 | BinaryFunc::SubInt16 | BinaryFunc::MulInt16
            | BinaryFunc::DivInt16 => ScalarType::Int16,
            BinaryFunc::AddInt32 | BinaryFunc::SubInt32 | BinaryFunc::MulInt32
            | BinaryFunc::DivInt32 => ScalarType::Int32,
            BinaryFunc::AddInt64 | BinaryFunc::SubInt64 | BinaryFunc::MulInt64
            | BinaryFunc::DivInt64 => ScalarType::Int64,
            _ => ScalarType::Bool,
        };
        ColumnType { scalar_type, nullable }
    }

    /// The scalar type of the result; it does not depend on the inputs.
    pub open spec fn output_scalar_spec(self) -> ScalarType {
        match self {
            BinaryFunc::AddInt16 | BinaryFunc::SubInt16 | BinaryFunc::MulInt16
            | BinaryFunc::DivInt16 => ScalarType::Int16,
            BinaryFunc::AddInt32 | BinaryFunc::SubInt32 | BinaryFunc::MulInt32
            | BinaryFunc::DivInt32 => ScalarType::Int32,
            BinaryFunc::AddInt64 | BinaryFunc::SubInt64 | BinaryFunc::MulInt64
            | BinaryFunc::DivInt64 => ScalarType::Int64,
            _ => ScalarType::Bool,
        }
    }

    /// The scalar type of the result.
    pub fn output_scalar(&self) -> (r: ScalarType)
        ensures
            r == self.output_scalar_spec(),
    {
        match self {
            BinaryFunc::AddInt16 | BinaryFunc::SubInt16 | BinaryFunc::MulInt16
            | BinaryFunc::DivInt16 => ScalarType::Int16,
            BinaryFunc::AddInt32 | BinaryFunc::SubInt32 | BinaryFunc::MulInt32
            | BinaryFunc::DivInt32 => ScalarType::Int32,
            BinaryFunc::AddInt64 | BinaryFunc::SubInt64 | BinaryFunc::MulInt64
            | BinaryFunc::DivInt64 => ScalarType::Int64,
            _ => ScalarType::Bool,
        }
    }

    /// Applies the function to already evaluated, non-NULL arguments.
    pub fn apply(&self, a: &Datum, b: &Datum) -> (r: Result<Datum, EvalError>)
        ensures
            res_view(r) == binary_apply(*self, a@, b@),
    {
        match self {
            BinaryFunc::AddInt16 => match (a, b) {
                (Datum::Int16(x), Datum::Int16(y)) => match x.checked_add(*y) {
                    Some(s) => Ok(Datum::Int16(s)),
                    None => Err(EvalError::NumericFieldOverflow),
                },
                _ => Err(mk_type_err()),
            },
            BinaryFunc::AddInt32 => match (a, b) {
                (Datum::Int32(x), Datum::Int32(y)) => match x.checked_add(*y) {
                    Some(s) => Ok(Datum::Int32(s)),
                    None => Err(EvalError::NumericFieldOverflow),
                },
                _ => Err(mk_type_err()),
            },
            BinaryFunc::AddInt64 => match (a, b) {
                (Datum::Int64(x), Datum::Int64(y)) => match x.checked_add(*y) {
                    Some(s) => Ok(Datum::Int64(s)),
                    None => Err(EvalError::NumericFieldOverflow),
                },
                _ => Err(mk_type_err()),
            },
            BinaryFunc::SubInt16 => match (a, b) {
                (Datum::Int16(x), Datum::Int16(y)) => match x.checked_sub(*y) {
                    Some(s) => Ok(Datum::Int16(s)),
                    None => Err(EvalError::NumericFieldOverflow),
                },
                _ => Err(mk_type_err()),
            },
            BinaryFunc::SubInt32 => match (a, b) {
                (Datum::Int32(x), Datum::Int32(y)) => match x.checked_sub(*y) {
                    Some(s) => Ok(Datum::Int32(s)),
                    None => Err(EvalError::NumericFieldOverflow),
                },
                _ => Err(mk_type_err()),
            },
            BinaryFunc::SubInt64 => match (a, b) {
                (Datum::Int64(x), Datum::Int64(y)) => match x.checked_sub(*y) {
                    Some(s) => Ok(Datum::Int64(s)),
                    None => Err(EvalError::NumericFieldOverflow),
                },
                _ => Err(mk_type_err()),
            },
            BinaryFunc::MulInt16 => match (a, b) {
                (Datum::Int16(x), Datum::Int16(y)) => match x.checked_mul(*y) {
                    Some(s) => Ok(Datum::Int16(s)),
                    None => Err(EvalError::NumericFieldOverflow),
                },
                _ => Err(mk_type_err()),
            },
            BinaryFunc::MulInt32 => match (a, b) {
                (Datum::Int32(x), Datum::Int32(y)) => match x.checked_mul(*y) {
                    Some(s) => Ok(Datum::Int32(s)),
                    None => Err(EvalError::NumericFieldOverflow),
                },
                _ => Err(mk_type_err()),
            },
            BinaryFunc::MulInt64 => match (a, b) {
                (Datum::Int64(x), Datum::Int64(y)) => match x.checked_mul(*y) {
                    Some(s) => Ok(Datum::Int64(s)),
                    None => Err(EvalError::NumericFieldOverflow),
                },
                _ => Err(mk_type_err()),
            },
            BinaryFunc::DivInt16 => match (a, b) {
                (Datum::Int16(x), Datum::Int16(y)) => if *y == 0 {
                    Err(EvalError::DivisionByZero)
                } else if *x == i16::MIN && *y == -1 {
                    Err(EvalError::NumericFieldOverflow)
                } else {
                    Ok(Datum::Int16(div_i16(*x, *y)))
                },
                _ => Err(mk_type_err()),
            },
            BinaryFunc::DivInt32 => match (a, b) {
                (Datum::Int32(x), Datum::Int32(y)) => if *y == 0 {
                    Err(EvalError::DivisionByZero)
                } else if *x == i32::MIN && *y == -1 {
                    Err(EvalError::NumericFieldOverflow)
                } else {
                    Ok(Datum::Int32(div_i32(*x, *y)))
                },
                _ => Err(mk_type_err()),
            },
            BinaryFunc::DivInt64 => match (a, b) {
                (Datum::Int64(x), Datum::Int64(y)) => if *y == 0 {
                    Err(EvalError::DivisionByZero)
                } else if *x == i64::MIN && *y == -1 {
                    Err(EvalError::NumericFieldOverflow)
                } else {
                    Ok(Datum::Int64(div_i64(*x, *y)))
                },
                _ => Err(mk_type_err()),
            },
            BinaryFunc::Eq => Ok(mk_bool_datum(a.eq_datum(b))),
            BinaryFunc::NotEq => Ok(mk_bool_datum(!a.eq_datum(b))),
            BinaryFunc::Lt => Ok(mk_bool_datum(matches!(a.cmp_datum(b), Ord3::Less))),
            BinaryFunc::Lte => Ok(mk_bool_datum(!matches!(a.cmp_datum(b), Ord3::Greater))),
            BinaryFunc::Gt => Ok(mk_bool_datum(matches!(a.cmp_datum(b), Ord3::Greater))),
            BinaryFunc::Gte => Ok(mk_bool_datum(!matches!(a.cmp_datum(b), Ord3::Less))),
            BinaryFunc::IsLikeMatch { case_insensitive } => match (a, b) {
                (Datum::Str(text), Datum::Str(pattern)) => Ok(
                    mk_bool_datum(like_matches(pattern, text, *case_insensitive)),
                ),
                _ => Err(mk_type_err()),
            },
            BinaryFunc::ConstantTimeEqBytes => match (a, b) {
                (Datum::Bytes(x), Datum::Bytes(y)) => Ok(mk_bool_datum(trusted::bytes_ct_eq(x, y))),
                _ => Err(mk_type_err()),
            },
            BinaryFunc::ConstantTimeEqStr => match (a, b) {
                (Datum::Str(x), Datum::Str(y)) => Ok(mk_bool_datum(constant_time_eq_string(x, y))),
                _ => Err(mk_type_err()),
            },
        }
    }
}

/// Divides two sixteen-bit integers, truncating toward zero.
fn div_i16(x: i16, y: i16) -> (r: i16)
    requires
        y != 0,
        !(x == i16::MIN && y == -1),
    ensures
        r as int == trunc_div(x as int, y as int),
{
    let xi: i32 = x as i32;
    let yi: i32 = y as i32;
    let xa: i32 = if xi < 0 { -xi } else { xi };
    let ya: i32 = if yi < 0 { -yi } else { yi };
    proof {
        vstd::arithmetic::div_mod::lemma_div_nonincreasing(xa as int, ya as int);
        vstd::arithmetic::div_mod::lemma_div_pos_is_pos(xa as int, ya as int);
        vstd::arithmetic::div_mod::lemma_div_basics(xa as int);
        if ya >= 2 && xa > 0 {
            vstd::arithmetic::div_mod::lemma_div_decreases(xa as int, ya as int);
        }
    }
    let q: i32 = xa / ya;
    let qs: i32 = if (xi < 0) != (yi < 0) { -q } else { q };
    qs as i16
}

/// Divides two 32-bit integers, truncating toward zero.
fn div_i32(x: i32, y: i32) -> (r: i32)
    requires
        y != 0,
        !(x == i32::MIN && y == -1),
    ensures
        r as int == trunc_div(x as int, y as int),
{
    let xi: i64 = x as i64;
    let yi: i64 = y as i64;
    let xa: i64 = if xi < 0 { -xi } else { xi };
    let ya: i64 = if yi < 0 { -yi } else { yi };
    proof {
        vstd::arithmetic::div_mod::lemma_div_nonincreasing(xa as int, ya as int);
        vstd::arithmetic::div_mod::lemma_div_pos_is_pos(xa as int, ya as int);
        vstd::arithmetic::div_mod::lemma_div_basics(xa as int);
        if ya >= 2 && xa > 0 {
            vstd::arithmetic::div_mod::lemma_div_decreases(xa as int, ya as int);
        }
    }
    let q: i64 = xa / ya;
    let qs: i64 = if (xi < 0) != (yi < 0) { -q } else { q };
    qs as i32
}

/// Divides two 64-bit integers, truncating toward zero.
fn div_i64(x: i64, y: i64) -> (r: i64)
    requires
        y != 0,
        !(x == i64::MIN && y == -1),
    ensures
        r as int == trunc_div(x as int, y as int),
{
    if y == i64::MIN {
        return if x == i64::MIN {
            proof {
                vstd::arithmetic::div_mod::lemma_div_by_self(abs_int(x as int));
            }
            1
        } else {
            proof {
                vstd::arithmetic::div_mod::lemma_basic_div(abs_int(x as int), abs_int(y as int));
            }
            0
        };
    }
    let ya: i64 = if y < 0 { -y } else { y };
    if x == i64::MIN {
        if ya == 1 {
            proof {
                vstd::arithmetic::div_mod::lemma_div_basics(x as int);
                assert(abs_int(x as int) / 1 == abs_int(x as int));
            }
            i64::MIN
        } else {
            let xh: i64 = -(x + ya);
            proof {
                lemma_min_div(x as int, ya as int);
                vstd::arithmetic::div_mod::lemma_div_nonincreasing(xh as int, ya as int);
                vstd::arithmetic::div_mod::lemma_div_pos_is_pos(xh as int, ya as int);
            }
            let qm: i64 = xh / ya + 1;
            if y < 0 { qm } else { -qm }
        }
    } else {
        let xa: i64 = if x < 0 { -x } else { x };
        proof {
            vstd::arithmetic::div_mod::lemma_div_nonincreasing(xa as int, ya as int);
            vstd::arithmetic::div_mod::lemma_div_pos_is_pos(xa as int, ya as int);
        }
        let q: i64 = xa / ya;
        if (x < 0) != (y < 0) { -q } else { q }
    }
}

/// Shifting a negative dividend up by one divisor lowers its magnitude
/// quotient by one.
proof fn lemma_min_div(x: int, ya: int)
    requires
        x + ya <= 0,
        ya >= 1,
    ensures
        abs_int(x) / ya == (-(x + ya)) / ya + 1,
{
    let xh = -(x + ya);
    vstd::arithmetic::div_mod::lemma_div_plus_one(xh, ya);
    assert(ya + xh == -x);
    assert(abs_int(x) == -x);
}

/// Whether two byte vectors hold the same bytes, in timing independent of
/// their contents.
pub fn constant_time_eq_bytes(a: &Vec<u8>, b: &Vec<u8>) -> (r: bool)
    ensures
        r == (a@ == b@),
{
    trusted::bytes_ct_eq(a, b)
}

/// Whether two strings hold the same characters, in timing independent of
/// their contents.
pub fn constant_time_eq_string(a: &String, b: &String) -> (r: bool)
    ensures
        r == (a@ == b@),
{
    let ab = trusted::string_to_utf8(a);
    let bb = trusted::string_to_utf8(b);
    proof {
        vstd::utf8::encode_utf8_decode_utf8(a@);
        vstd::utf8::encode_utf8_decode_utf8(b@);
    }
    trusted::bytes_ct_eq(&ab, &bb)
}


/// A possibly NULL boolean operand, with every other value counted as the
/// typing error.
pub open spec fn bool_norm(r: Result<DatumV, ErrV>) -> Result<DatumV, ErrV> {
    match r {
        Ok(DatumV::True) => Ok(DatumV::True),
        Ok(DatumV::False) => Ok(DatumV::False),
        Ok(DatumV::Null) => Ok(DatumV::Null),
        Ok(_) => Err(type_err()),
        Err(e) => Err(e),
    }
}

/// Each operand of a boolean connective, normalized by `bool_norm`.
pub open spec fn norm_results(vals: Seq<Result<DatumV, ErrV>>) -> Seq<Result<DatumV, ErrV>> {
    vals.map_values(|r: Result<DatumV, ErrV>| bool_norm(r))
}

/// The errors among a sequence of operand outcomes, in order.
pub open spec fn errs_of(vals: Seq<Result<DatumV, ErrV>>) -> Seq<ErrV>
    decreases vals.len(),
{
    if vals.len() == 0 {
        Seq::empty()
    } else {
        let rest = errs_of(vals.drop_last());
        match vals.last() {
            Err(e) => rest.push(e),
            Ok(_) => rest,
        }
    }
}

/// An error stands among the errors of a sequence exactly when some member
/// is that error.
pub proof fn lemma_errs_of_members(vals: Seq<Result<DatumV, ErrV>>)
    ensures
        forall|e: ErrV| errs_of(vals).contains(e) <==> vals.contains(Err(e)),
    decreases vals.len(),
{
    if vals.len() > 0 {
        let rest = vals.drop_last();
        lemma_errs_of_members(rest);
        assert forall|e: ErrV| errs_of(vals).contains(e) implies vals.contains(Err(e)) by {
            let es = errs_of(vals);
            let j = choose|j: int| 0 <= j < es.len() && es[j] == e;
            match vals.last() {
                Err(x) => {
                    if j == es.len() - 1 {
                        assert(vals[vals.len() - 1] == Err::<DatumV, ErrV>(e));
                    } else {
                        assert(errs_of(rest).contains(e));
                        let k = choose|k: int| 0 <= k < rest.len() && rest[k] == Err::<
                            DatumV,
                            ErrV,
                        >(e);
                        assert(vals[k] == Err::<DatumV, ErrV>(e));
                    }
                }
                Ok(_) => {
                    assert(errs_of(rest).contains(e));
                    let k = choose|k: int| 0 <= k < rest.len() && rest[k] == Err::<DatumV, ErrV>(e);
                    assert(vals[k] == Err::<DatumV, ErrV>(e));
                }
            }
        }
        assert forall|e: ErrV| vals.contains(Err(e)) implies errs_of(vals).contains(e) by {
            let j = choose|j: int| 0 <= j < vals.len() && vals[j] == Err::<DatumV, ErrV>(e);
            if j == vals.len() - 1 {
                let es = errs_of(vals);
                assert(es[es.len() - 1] == e);
            } else {
                assert(rest[j] == Err::<DatumV, ErrV>(e));
                assert(errs_of(rest).contains(e));
                match vals.last() {
                    Err(x) => {
                        let k = choose|k: int|
                            0 <= k < errs_of(rest).len() && errs_of(rest)[k] == e;
                        assert(errs_of(vals)[k] == e);
                    }
                    Ok(_) => {}
                }
            }
        }
    }
}

/// Whether some operand outcome is the given value.
pub open spec fn has_value(vals: Seq<Result<DatumV, ErrV>>, d: DatumV) -> bool {
    exists|i: int| 0 <= i < vals.len() && vals[i] == Ok::<DatumV, ErrV>(d)
}

/// Whether some operand outcome is an error.
pub open spec fn has_err(vals: Seq<Result<DatumV, ErrV>>) -> bool {
    exists|i: int| 0 <= i < vals.len() && vals[i] is Err
}

/// What AND returns from its operands' outcomes: FALSE wins over every
/// error, the largest error wins over NULL, and NULL over TRUE. Operands of
/// a kind the planner rules out count as the typing error.
pub open spec fn and_semantics(vals: Seq<Result<DatumV, ErrV>>) -> Result<DatumV, ErrV> {
    let norm = norm_results(vals);
    if has_value(norm, DatumV::False) {
        Ok(DatumV::False)
    } else if has_err(norm) {
        Err(seq_max_err(errs_of(norm)))
    } else if has_value(norm, DatumV::Null) {
        Ok(DatumV::Null)
    } else {
        Ok(DatumV::True)
    }
}

/// What OR returns from its operands' outcomes: the exact dual of AND.
pub open spec fn or_semantics(vals: Seq<Result<DatumV, ErrV>>) -> Result<DatumV, ErrV> {
    let norm = norm_results(vals);
    if has_value(norm, DatumV::True) {
        Ok(DatumV::True)
    } else if has_err(norm) {
        Err(seq_max_err(errs_of(norm)))
    } else if has_value(norm, DatumV::Null) {
        Ok(DatumV::Null)
    } else {
        Ok(DatumV::False)
    }
}

/// What COALESCE returns from its operands' outcomes: the first non-NULL
/// value, an error met before one, or NULL.
pub open spec fn coalesce_semantics(vals: Seq<Result<DatumV, ErrV>>) -> Result<DatumV, ErrV>
    decreases vals.len(),
{
    if vals.len() == 0 {
        Ok(DatumV::Null)
    } else {
        match vals[0] {
            Err(e) => Err(e),
            Ok(d) => if d is Null {
                coalesce_semantics(vals.drop_first())
            } else {
                Ok(d)
            },
        }
    }
}

/// What GREATEST returns: the largest non-NULL value, NULL when every value
/// is NULL, or the first error.
pub open spec fn greatest_semantics(vals: Seq<Result<DatumV, ErrV>>) -> Result<DatumV, ErrV>
    decreases vals.len(),
{
    if vals.len() == 0 {
        Ok(DatumV::Null)
    } else {
        match vals[0] {
            Err(e) => Err(e),
            Ok(d) => match greatest_semantics(vals.drop_first()) {
                Err(e) => Err(e),
                Ok(rest) => if d is Null {
                    Ok(rest)
                } else if rest is Null {
                    Ok(d)
                } else if datum_cmp_spec(d, rest) == Ord3::Less {
                    Ok(rest)
                } else {
                    Ok(d)
                },
            },
        }
    }
}

/// What LEAST returns: the smallest non-NULL value, NULL when every value
/// is NULL, or the first error.
pub open spec fn least_semantics(vals: Seq<Result<DatumV, ErrV>>) -> Result<DatumV, ErrV>
    decreases vals.len(),
{
    if vals.len() == 0 {
        Ok(DatumV::Null)
    } else {
        match vals[0] {
            Err(e) => Err(e),
            Ok(d) => match least_semantics(vals.drop_first()) {
                Err(e) => Err(e),
                Ok(rest) => if d is Null {
                    Ok(rest)
                } else if rest is Null {
                    Ok(d)
                } else if datum_cmp_spec(d, rest) == Ord3::Greater {
                    Ok(rest)
                } else {
                    Ok(d)
                },
            },
        }
    }
}

/// What ERROR_IF_NULL returns: the first operand unless it is NULL, in
/// which case the second operand gives the error message.
pub open spec fn error_if_null_semantics(vals: Seq<Result<DatumV, ErrV>>) -> Result<
    DatumV,
    ErrV,
> {
    if vals.len() < 2 {
        Err(type_err())
    } else {
        match vals[0] {
            Err(e) => Err(e),
            Ok(d) => if !(d is Null) {
                Ok(d)
            } else {
                match vals[1] {
                    Err(e) => Err(e),
                    Ok(m) => match m {
                        DatumV::Str(msg) => Err(ErrV::IfNullError(msg)),
                        DatumV::Null => Err(
                            ErrV::Internal("unexpected NULL in error side of error_if_null"@),
                        ),
                        _ => Err(type_err()),
                    },
                }
            },
        }
    }
}

/// The keyed digest the named algorithm computes, or the error naming an
/// unknown algorithm.
pub open spec fn hmac_of(algo: Seq<char>, key: Seq<u8>, data: Seq<u8>) -> Result<Seq<u8>, ErrV> {
    if algo == "md5"@ {
        Ok(trusted::hmac_md5_of(key, data))
    } else if algo == "sha1"@ {
        Ok(trusted::hmac_sha1_of(key, data))
    } else if algo == "sha224"@ {
        Ok(trusted::hmac_sha224_of(key, data))
    } else if algo == "sha256"@ {
        Ok(trusted::hmac_sha256_of(key, data))
    } else if algo == "sha384"@ {
        Ok(trusted::hmac_sha384_of(key, data))
    } else if algo == "sha512"@ {
        Ok(trusted::hmac_sha512_of(key, data))
    } else {
        Err(ErrV::InvalidHashAlgorithm(algo))
    }
}

/// What the keyed-digest functions return on already evaluated, non-NULL
/// arguments: message, key, then algorithm name.
pub open spec fn hmac_semantics(f: VariadicFunc, ds: Seq<DatumV>) -> Result<DatumV, ErrV> {
    if ds.len() != 3 {
        Err(type_err())
    } else {
        match f {
            VariadicFunc::HmacString => match (ds[0], ds[1], ds[2]) {
                (DatumV::Str(data), DatumV::Str(key), DatumV::Str(algo)) => {
                    match hmac_of(
                        algo,
                        vstd::utf8::encode_utf8(key),
                        vstd::utf8::encode_utf8(data),
                    ) {
                        Ok(bytes) => Ok(DatumV::Bytes(bytes)),
                        Err(e) => Err(e),
                    }
                }
                _ => Err(type_err()),
            },
            VariadicFunc::HmacBytes => match (ds[0], ds[1], ds[2]) {
                (DatumV::Bytes(data), DatumV::Bytes(key), DatumV::Str(algo)) => {
                    match hmac_of(algo, key, data) {
                        Ok(bytes) => Ok(DatumV::Bytes(bytes)),
                        Err(e) => Err(e),
                    }
                }
                _ => Err(type_err()),
            },
            _ => Err(type_err()),
        }
    }
}

impl VariadicFunc {
    /// Whether a NULL argument makes the result NULL without invoking the
    /// function.
    pub fn propagates_nulls(&self) -> (r: bool)
        ensures
            r == self.propagates_nulls_spec(),
    {
        matches!(self, VariadicFunc::HmacString | VariadicFunc::HmacBytes)
    }

    /// What `propagates_nulls` returns.
    pub open spec fn propagates_nulls_spec(self) -> bool {
        self is HmacString || self is HmacBytes
    }

    /// Whether the result may be NULL although no argument was.
    pub fn introduces_nulls(&self) -> (r: bool)
        ensures
            r == self.introduces_nulls_spec(),
    {
        matches!(self, VariadicFunc::Coalesce | VariadicFunc::Greatest | VariadicFunc::Least)
    }

    /// What `introduces_nulls` returns.
    pub open spec fn introduces_nulls_spec(self) -> bool {
        self is Coalesce || self is Greatest || self is Least
    }

    /// Whether nested calls of the function merge into one call.
    pub fn is_associative(&self) -> (r: bool)
        ensures
            r == self.is_associative_spec(),
    {
        matches!(
            self,
            VariadicFunc::Coalesce | VariadicFunc::Greatest | VariadicFunc::Least
                | VariadicFunc::And | VariadicFunc::Or,
        )
    }

    /// What `is_associative` returns.
    pub open spec fn is_associative_spec(self) -> bool {
        self is Coalesce || self is Greatest || self is Least || self is And || self is Or
    }

    /// The same connective with AND and OR exchanged.
    pub fn switch_and_or(&self) -> (r: VariadicFunc)
        requires
            *self is And || *self is Or,
        ensures
            r == self.switch_and_or_spec(),
    {
        match self {
            VariadicFunc::And => VariadicFunc::Or,
            _ => VariadicFunc::And,
        }
    }

    /// What `switch_and_or` returns.
    pub open spec fn switch_and_or_spec(self) -> VariadicFunc {
        if self is And {
            VariadicFunc::Or
        } else {
            VariadicFunc::And
        }
    }

    /// Whether the function renders as an infix operator.
    pub fn is_infix_op(&self) -> (r: bool)
        ensures
            r == (self is And || self is Or),
    {
        matches!(self, VariadicFunc::And | VariadicFunc::Or)
    }

    /// Whether the function can fail on well-typed, non-error input.
    pub fn could_error(&self) -> (r: bool)
        ensures
            r == self.could_error_spec(),
    {
        matches!(self, VariadicFunc::ErrorIfNull | VariadicFunc::HmacString | VariadicFunc::HmacBytes)
    }

    /// What `could_error` returns.
    pub open spec fn could_error_spec(self) -> bool {
        self is ErrorIfNull || self is HmacString || self is HmacBytes
    }

    /// Whether the function is pointwise non-strictly monotone in each
    /// argument.
    pub fn is_monotone(&self) -> (r: bool)
        ensures
            r == self.is_monotone_spec(),
    {
        matches!(
            self,
            VariadicFunc::Coalesce | VariadicFunc::Greatest | VariadicFunc::Least
                | VariadicFunc::And | VariadicFunc::Or,
        )
    }

    /// What `is_monotone` returns.
    pub open spec fn is_monotone_spec(self) -> bool {
        self is Coalesce || self is Greatest || self is Least || self is And || self is Or
    }

    /// Whether the argument list is one the function's typing accepts; the
    /// output type is defined only then.
    pub open spec fn arity_ok(self, n: int) -> bool {
        match self {
            VariadicFunc::Coalesce | VariadicFunc::Greatest | VariadicFunc::Least => n >= 1,
            VariadicFunc::ErrorIfNull => n == 2,
            VariadicFunc::HmacString | VariadicFunc::HmacBytes => n == 3,
            VariadicFunc::And | VariadicFunc::Or => true,
        }
    }

    /// The column type of the result, from the arguments' column types.
    pub fn output_type(&self, input_types: &Vec<ColumnType>) -> (r: ColumnType)
        requires
            self.arity_ok(input_types@.len() as int),
        ensures
            r == self.output_type_spec(input_types@),
    {
        let mut any_nullable = false;
        let mut all_nullable = true;
        let mut i: usize = 0;
        while i < input_types.len()
            invariant
                i <= input_types@.len(),
                any_nullable == exists|j: int| 0 <= j < i && input_types@[j].nullable,
                all_nullable == forall|j: int| 0 <= j < i ==> input_types@[j].nullable,
            decreases input_types@.len() - i,
        {
            if input_types[i].nullable {
                any_nullable = true;
            } else {
                all_nullable = false;
            }
            i = i + 1;
        }
        match self {
            VariadicFunc::Coalesce => ColumnType {
                scalar_type: input_types[0].scalar_type,
                nullable: all_nullable,
            },
            VariadicFunc::Greatest | VariadicFunc::Least => ColumnType {
                scalar_type: input_types[0].scalar_type,
                nullable: any_nullable,
            },
            VariadicFunc::And | VariadicFunc::Or => ScalarType::Bool.nullable(any_nullable),
            VariadicFunc::ErrorIfNull => ColumnType {
                scalar_type: input_types[0].scalar_type,
                nullable: false,
            },
            VariadicFunc::HmacString | VariadicFunc::HmacBytes => ScalarType::Bytes.nullable(
                any_nullable,
            ),
        }
    }

    /// What `output_type` returns.
    pub open spec fn output_type_spec(self, input_types: Seq<ColumnType>) -> ColumnType {
        let any_nullable = exists|j: int| 0 <= j < input_types.len() && input_types[j].nullable;
        let all_nullable = forall|j: int| 0 <= j < input_types.len() ==> input_types[j].nullable;
        match self {
            VariadicFunc::Coalesce => ColumnType {
                scalar_type: input_types[0].scalar_type,
                nullable: all_nullable,
            },
            VariadicFunc::Greatest | VariadicFunc::Least => ColumnType {
                scalar_type: input_types[0].scalar_type,
                nullable: any_nullable,
            },
            VariadicFunc::And | VariadicFunc::Or => ColumnType {
                scalar_type: ScalarType::Bool,
                nullable: any_nullable,
            },
            VariadicFunc::ErrorIfNull => ColumnType {
                scalar_type: input_types[0].scalar_type,
                nullable: false,
            },
            VariadicFunc::HmacString | VariadicFunc::HmacBytes => ColumnType {
                scalar_type: ScalarType::Bytes,
                nullable: any_nullable,
            },
        }
    }
}


/// The model of a sequence of evaluation outcomes.
pub open spec fn results_view(s: Seq<Result<Datum, EvalError>>) -> Seq<Result<DatumV, ErrV>> {
    s.map_values(|r: Result<Datum, EvalError>| res_view(r))
}

/// Some operand is an error exactly when the error list is nonempty.
pub proof fn lemma_errs_bridge(norm: Seq<Result<DatumV, ErrV>>)
    ensures
        has_err(norm) <==> errs_of(norm).len() > 0,
{
    lemma_errs_of_members(norm);
    if errs_of(norm).len() > 0 {
        let e0 = errs_of(norm)[0];
        assert(errs_of(norm).contains(e0));
        assert(norm.contains(Err(e0)));
        let j = choose|j: int| 0 <= j < norm.len() && norm[j] == Err::<DatumV, ErrV>(e0);
        assert(norm[j] is Err);
    }
    if has_err(norm) {
        let j = choose|j: int| 0 <= j < norm.len() && norm[j] is Err;
        let e = norm[j]->Err_0;
        assert(norm[j] == Err::<DatumV, ErrV>(e));
        assert(norm.contains(Err(e)));
        assert(errs_of(norm).contains(e));
    }
}

/// Folds operand outcomes as AND combines them.
pub fn and_of_results(vals: &Vec<Result<Datum, EvalError>>) -> (r: Result<Datum, EvalError>)
    ensures
        res_view(r) == and_semantics(results_view(vals@)),
{
    let ghost norm = norm_results(results_view(vals@));
    let mut null_seen = false;
    let mut err_acc: Option<EvalError> = None;
    let mut i: usize = 0;
    while i < vals.len()
        invariant
            i <= vals@.len(),
            norm == norm_results(results_view(vals@)),
            norm.len() == vals@.len(),
            forall|j: int| 0 <= j < i ==> norm[j] != Ok::<DatumV, ErrV>(DatumV::False),
            null_seen == exists|j: int|
                0 <= j < i && norm[j] == Ok::<DatumV, ErrV>(DatumV::Null),
            match err_acc {
                Some(e) => errs_of(norm.take(i as int)).len() > 0 && e@ == seq_max_err(
                    errs_of(norm.take(i as int)),
                ),
                None => errs_of(norm.take(i as int)).len() == 0,
            },
        decreases vals@.len() - i,
    {
        let ghost prefix = norm.take(i as int);
        let ghost prefix2 = norm.take(i + 1);
        proof {
            assert(prefix2.drop_last() =~= prefix);
            assert(prefix2.last() == norm[i as int]);
        }
        let step: Result<Datum, EvalError> = match &vals[i] {
            Ok(Datum::True) => Ok(Datum::True),
            Ok(Datum::False) => Ok(Datum::False),
            Ok(Datum::Null) => Ok(Datum::Null),
            Ok(_) => Err(mk_type_err()),
            Err(e) => Err(e.duplicate()),
        };
        proof {
            assert(norm[i as int] == bool_norm(res_view(vals@[i as int])));
            assert(res_view(step) == norm[i as int]);
        }
        match step {
            Ok(Datum::False) => {
                return Ok(Datum::False);
            }
            Ok(Datum::Null) => {
                null_seen = true;
            }
            Ok(_) => {}
            Err(e) => {
                proof {
                    if errs_of(prefix).len() > 0 {
                        crate::error::lemma_seq_max_err_push(errs_of(prefix), e@);
                    }
                }
                err_acc = match err_acc {
                    Some(acc) => Some(acc.max_err(e)),
                    None => Some(e),
                };
            }
        }
        i = i + 1;
    }
    proof {
        assert(norm.take(norm.len() as int) =~= norm);
        lemma_errs_bridge(norm);
    }
    match err_acc {
        Some(e) => Err(e),
        None => {
            if null_seen {
                Ok(Datum::Null)
            } else {
                Ok(Datum::True)
            }
        }
    }
}

/// Folds operand outcomes as OR combines them.
pub fn or_of_results(vals: &Vec<Result<Datum, EvalError>>) -> (r: Result<Datum, EvalError>)
    ensures
        res_view(r) == or_semantics(results_view(vals@)),
{
    let ghost norm = norm_results(results_view(vals@));
    let mut null_seen = false;
    let mut err_acc: Option<EvalError> = None;
    let mut i: usize = 0;
    while i < vals.len()
        invariant
            i <= vals@.len(),
            norm == norm_results(results_view(vals@)),
            norm.len() == vals@.len(),
            forall|j: int| 0 <= j < i ==> norm[j] != Ok::<DatumV, ErrV>(DatumV::True),
            null_seen == exists|j: int|
                0 <= j < i && norm[j] == Ok::<DatumV, ErrV>(DatumV::Null),
            match err_acc {
                Some(e) => errs_of(norm.take(i as int)).len() > 0 && e@ == seq_max_err(
                    errs_of(norm.take(i as int)),
                ),
                None => errs_of(norm.take(i as int)).len() == 0,
            },
        decreases vals@.len() - i,
    {
        let ghost prefix = norm.take(i as int);
        let ghost prefix2 = norm.take(i + 1);
        proof {
            assert(prefix2.drop_last() =~= prefix);
            assert(prefix2.last() == norm[i as int]);
        }
        let step: Result<Datum, EvalError> = match &vals[i] {
            Ok(Datum::True) => Ok(Datum::True),
            Ok(Datum::False) => Ok(Datum::False),
            Ok(Datum::Null) => Ok(Datum::Null),
            Ok(_) => Err(mk_type_err()),
            Err(e) => Err(e.duplicate()),
        };
        proof {
            assert(norm[i as int] == bool_norm(res_view(vals@[i as int])));
            assert(res_view(step) == norm[i as int]);
        }
        match step {
            Ok(Datum::True) => {
                return Ok(Datum::True);
            }
            Ok(Datum::Null) => {
                null_seen = true;
            }
            Ok(_) => {}
            Err(e) => {
                proof {
                    if errs_of(prefix).len() > 0 {
                        crate::error::lemma_seq_max_err_push(errs_of(prefix), e@);
                    }
                }
                err_acc = match err_acc {
                    Some(acc) => Some(acc.max_err(e)),
                    None => Some(e),
                };
            }
        }
        i = i + 1;
    }
    proof {
        assert(norm.take(norm.len() as int) =~= norm);
        lemma_errs_bridge(norm);
    }
    match err_acc {
        Some(e) => Err(e),
        None => {
            if null_seen {
                Ok(Datum::Null)
            } else {
                Ok(Datum::False)
            }
        }
    }
}

/// Scans operand outcomes as COALESCE does.
pub fn coalesce_of_results(vals: &Vec<Result<Datum, EvalError>>) -> (r: Result<Datum, EvalError>)
    ensures
        res_view(r) == coalesce_semantics(results_view(vals@)),
{
    let ghost view = results_view(vals@);
    proof {
        assert(view.skip(0) =~= view);
    }
    let mut i: usize = 0;
    while i < vals.len()
        invariant
            i <= vals@.len(),
            view == results_view(vals@),
            view.len() == vals@.len(),
            coalesce_semantics(view) == coalesce_semantics(view.skip(i as int)),
        decreases vals@.len() - i,
    {
        let ghost rest = view.skip(i as int);
        proof {
            assert(rest[0] == view[i as int]);
            assert(rest.drop_first() =~= view.skip(i + 1));
        }
        match &vals[i] {
            Err(e) => {
                return Err(e.duplicate());
            }
            Ok(d) => {
                if !d.is_null() {
                    return Ok(d.duplicate());
                }
            }
        }
        i = i + 1;
    }
    proof {
        assert(view.skip(i as int).len() == 0);
    }
    Ok(Datum::Null)
}

/// Folds operand outcomes as GREATEST combines them.
pub fn greatest_of_results(vals: &Vec<Result<Datum, EvalError>>) -> (r: Result<Datum, EvalError>)
    ensures
        res_view(r) == greatest_semantics(results_view(vals@)),
{
    let ghost view = results_view(vals@);
    let mut i: usize = vals.len();
    let mut acc: Result<Datum, EvalError> = Ok(Datum::Null);
    proof {
        assert(view.skip(vals@.len() as int).len() == 0);
    }
    while i > 0
        invariant
            i <= vals@.len(),
            view == results_view(vals@),
            view.len() == vals@.len(),
            res_view(acc) == greatest_semantics(view.skip(i as int)),
        decreases i,
    {
        i = i - 1;
        let ghost rest = view.skip(i as int);
        proof {
            assert(rest[0] == view[i as int]);
            assert(rest.drop_first() =~= view.skip(i + 1));
        }
        acc = match (&vals[i], acc) {
            (Err(e), _) => Err(e.duplicate()),
            (Ok(_), Err(e)) => Err(e),
            (Ok(d), Ok(prior)) => {
                if d.is_null() {
                    Ok(prior)
                } else if prior.is_null() {
                    Ok(d.duplicate())
                } else if matches!(d.cmp_datum(&prior), Ord3::Less) {
                    Ok(prior)
                } else {
                    Ok(d.duplicate())
                }
            }
        };
    }
    proof {
        assert(view.skip(0) =~= view);
    }
    acc
}

/// Folds operand outcomes as LEAST combines them.
pub fn least_of_results(vals: &Vec<Result<Datum, EvalError>>) -> (r: Result<Datum, EvalError>)
    ensures
        res_view(r) == least_semantics(results_view(vals@)),
{
    let ghost view = results_view(vals@);
    let mut i: usize = vals.len();
    let mut acc: Result<Datum, EvalError> = Ok(Datum::Null);
    proof {
        assert(view.skip(vals@.len() as int).len() == 0);
    }
    while i > 0
        invariant
            i <= vals@.len(),
            view == results_view(vals@),
            view.len() == vals@.len(),
            res_view(acc) == least_semantics(view.skip(i as int)),
        decreases i,
    {
        i = i - 1;
        let ghost rest = view.skip(i as int);
        proof {
            assert(rest[0] == view[i as int]);
            assert(rest.drop_first() =~= view.skip(i + 1));
        }
        acc = match (&vals[i], acc) {
            (Err(e), _) => Err(e.duplicate()),
            (Ok(_), Err(e)) => Err(e),
            (Ok(d), Ok(prior)) => {
                if d.is_null() {
                    Ok(prior)
                } else if prior.is_null() {
                    Ok(d.duplicate())
                } else if matches!(d.cmp_datum(&prior), Ord3::Greater) {
                    Ok(prior)
                } else {
                    Ok(d.duplicate())
                }
            }
        };
    }
    proof {
        assert(view.skip(0) =~= view);
    }
    acc
}

/// Reads operand outcomes as ERROR_IF_NULL does.
pub fn error_if_null_of_results(vals: &Vec<Result<Datum, EvalError>>) -> (r: Result<
    Datum,
    EvalError,
>)
    ensures
        res_view(r) == error_if_null_semantics(results_view(vals@)),
{
    if vals.len() < 2 {
        return Err(mk_type_err());
    }
    match &vals[0] {
        Err(e) => Err(e.duplicate()),
        Ok(d) => {
            if !d.is_null() {
                Ok(d.duplicate())
            } else {
                match &vals[1] {
                    Err(e) => Err(e.duplicate()),
                    Ok(m) => match m {
                        Datum::Str(msg) => Err(EvalError::IfNullError(msg.clone())),
                        Datum::Null => Err(
                            EvalError::Internal(
                                String::from_str(
                                    "unexpected NULL in error side of error_if_null",
                                ),
                            ),
                        ),
                        _ => Err(mk_type_err()),
                    },
                }
            }
        }
    }
}

/// Computes the keyed digest the named algorithm prescribes, over bytes.
pub fn hmac_inner(to_mac: &Vec<u8>, key: &Vec<u8>, algo: &String) -> (r: Result<Vec<u8>, EvalError>)
    ensures
        match r {
            Ok(bytes) => hmac_of(algo@, key@, to_mac@) == Ok::<Seq<u8>, ErrV>(bytes@),
            Err(e) => hmac_of(algo@, key@, to_mac@) == Err::<Seq<u8>, ErrV>(e@),
        },
{
    if *algo == String::from_str("md5") {
        Ok(trusted::hmac_md5(key, to_mac))
    } else if *algo == String::from_str("sha1") {
        Ok(trusted::hmac_sha1(key, to_mac))
    } else if *algo == String::from_str("sha224") {
        Ok(trusted::hmac_sha224(key, to_mac))
    } else if *algo == String::from_str("sha256") {
        Ok(trusted::hmac_sha256(key, to_mac))
    } else if *algo == String::from_str("sha384") {
        Ok(trusted::hmac_sha384(key, to_mac))
    } else if *algo == String::from_str("sha512") {
        Ok(trusted::hmac_sha512(key, to_mac))
    } else {
        Err(EvalError::InvalidHashAlgorithm(algo.clone()))
    }
}

/// Applies a keyed digest to string arguments: message, key, algorithm.
pub fn hmac_string(datums: &Vec<Datum>) -> (r: Result<Datum, EvalError>)
    ensures
        res_view(r) == hmac_semantics(VariadicFunc::HmacString, datums.deep_view()),
{
    if datums.len() != 3 {
        return Err(mk_type_err());
    }
    match (&datums[0], &datums[1], &datums[2]) {
        (Datum::Str(data), Datum::Str(key), Datum::Str(algo)) => {
            let data_bytes = trusted::string_to_utf8(data);
            let key_bytes = trusted::string_to_utf8(key);
            match hmac_inner(&data_bytes, &key_bytes, algo) {
                Ok(bytes) => Ok(Datum::Bytes(bytes)),
                Err(e) => Err(e),
            }
        }
        _ => Err(mk_type_err()),
    }
}

/// Applies a keyed digest to byte arguments: message, key, then the
/// algorithm name as a string.
pub fn hmac_bytes(datums: &Vec<Datum>) -> (r: Result<Datum, EvalError>)
    ensures
        res_view(r) == hmac_semantics(VariadicFunc::HmacBytes, datums.deep_view()),
{
    if datums.len() != 3 {
        return Err(mk_type_err());
    }
    match (&datums[0], &datums[1], &datums[2]) {
        (Datum::Bytes(data), Datum::Bytes(key), Datum::Str(algo)) => {
            match hmac_inner(data, key, algo) {
                Ok(bytes) => Ok(Datum::Bytes(bytes)),
                Err(e) => Err(e),
            }
        }
        _ => Err(mk_type_err()),
    }
}


/// The first error among operand outcomes.
pub open spec fn first_err(vals: Seq<Result<DatumV, ErrV>>) -> ErrV
    recommends
        has_err(vals),
    decreases vals.len(),
{
    if vals.len() == 0 {
        type_err()
    } else {
        match vals[0] {
            Err(e) => e,
            Ok(_) => first_err(vals.drop_first()),
        }
    }
}

/// The values of operand outcomes that are all values.
pub open spec fn datums_of(vals: Seq<Result<DatumV, ErrV>>) -> Seq<DatumV> {
    vals.map_values(|r: Result<DatumV, ErrV>| r->Ok_0)
}

/// What a variadic function returns from its operands' outcomes. The lazy
/// connectives combine outcomes their own way; the eager functions report
/// the first error, then NULL on any NULL operand, then apply.
pub open spec fn variadic_semantics(f: VariadicFunc, vals: Seq<Result<DatumV, ErrV>>) -> Result<
    DatumV,
    ErrV,
> {
    match f {
        VariadicFunc::And => and_semantics(vals),
        VariadicFunc::Or => or_semantics(vals),
        VariadicFunc::Coalesce => coalesce_semantics(vals),
        VariadicFunc::Greatest => greatest_semantics(vals),
        VariadicFunc::Least => least_semantics(vals),
        VariadicFunc::ErrorIfNull => error_if_null_semantics(vals),
        VariadicFunc::HmacString | VariadicFunc::HmacBytes => {
            if has_err(vals) {
                Err(first_err(vals))
            } else if has_value(vals, DatumV::Null) {
                Ok(DatumV::Null)
            } else {
                hmac_semantics(f, datums_of(vals))
            }
        }
    }
}

/// A first error at a position with none before it is the first error.
proof fn lemma_first_err_at(vals: Seq<Result<DatumV, ErrV>>, i: int)
    requires
        0 <= i < vals.len(),
        forall|j: int| 0 <= j < i ==> !(#[trigger] vals[j] is Err),
        vals[i] is Err,
    ensures
        has_err(vals),
        first_err(vals) == vals[i]->Err_0,
    decreases i,
{
    assert(has_err(vals)) by {
        assert(vals[i] is Err);
    }
    if i == 0 {
    } else {
        let rest = vals.drop_first();
        assert forall|j: int| 0 <= j < i - 1 implies !(#[trigger] rest[j] is Err) by {
            assert(rest[j] == vals[j + 1]);
        }
        assert(rest[i - 1] == vals[i]);
        lemma_first_err_at(rest, i - 1);
    }
}

/// Applies an eager variadic function to its operands' outcomes.
fn eager_of_results(f: &VariadicFunc, vals: &Vec<Result<Datum, EvalError>>) -> (r: Result<
    Datum,
    EvalError,
>)
    requires
        *f is HmacString || *f is HmacBytes,
    ensures
        res_view(r) == variadic_semantics(*f, results_view(vals@)),
{
    let ghost view = results_view(vals@);
    let mut ds: Vec<Datum> = Vec::new();
    let mut null_seen = false;
    let mut i: usize = 0;
    while i < vals.len()
        invariant
            *f is HmacString || *f is HmacBytes,
            i <= vals@.len(),
            view == results_view(vals@),
            view.len() == vals@.len(),
            forall|j: int| 0 <= j < i ==> !(#[trigger] view[j] is Err),
            null_seen == exists|j: int| 0 <= j < i && view[j] == Ok::<DatumV, ErrV>(DatumV::Null),
            ds@.len() == i,
            forall|j: int| 0 <= j < i ==> ds@[j]@ == #[trigger] view[j]->Ok_0,
        decreases vals@.len() - i,
    {
        match &vals[i] {
            Err(e) => {
                proof {
                    assert(view[i as int] == res_view(vals@[i as int]));
                    assert(view[i as int] == Err::<DatumV, ErrV>(e@));
                    lemma_first_err_at(view, i as int);
                    assert(first_err(view) == e@);
                }
                return Err(e.duplicate());
            }
            Ok(d) => {
                proof {
                    assert(view[i as int] == res_view(vals@[i as int]));
                }
                if d.is_null() {
                    null_seen = true;
                }
                ds.push(d.duplicate());
            }
        }
        i = i + 1;
    }
    proof {
        if has_err(view) {
            let j = choose|j: int| 0 <= j < view.len() && view[j] is Err;
            assert(!(view[j] is Err));
        }
        assert(ds.deep_view() =~= datums_of(view));
    }
    if null_seen {
        return Ok(Datum::Null);
    }
    match f {
        VariadicFunc::HmacString => hmac_string(&ds),
        _ => hmac_bytes(&ds),
    }
}

/// Applies a variadic function to its operands' outcomes.
pub fn apply_variadic(f: &VariadicFunc, vals: &Vec<Result<Datum, EvalError>>) -> (r: Result<
    Datum,
    EvalError,
>)
    ensures
        res_view(r) == variadic_semantics(*f, results_view(vals@)),
{
    match f {
        VariadicFunc::And => and_of_results(vals),
        VariadicFunc::Or => or_of_results(vals),
        VariadicFunc::Coalesce => coalesce_of_results(vals),
        VariadicFunc::Greatest => greatest_of_results(vals),
        VariadicFunc::Least => least_of_results(vals),
        VariadicFunc::ErrorIfNull => error_if_null_of_results(vals),
        VariadicFunc::HmacString | VariadicFunc::HmacBytes => eager_of_results(f, vals),
    }
}


/// The three-valued conjunction of two truth values.
pub open spec fn kleene_and(p: DatumV, q: DatumV) -> DatumV {
    if p is False || q is False {
        DatumV::False
    } else if p is Null || q is Null {
        DatumV::Null
    } else {
        DatumV::True
    }
}

/// The three-valued disjunction of two truth values.
pub open spec fn kleene_or(p: DatumV, q: DatumV) -> DatumV {
    if p is True || q is True {
        DatumV::True
    } else if p is Null || q is Null {
        DatumV::Null
    } else {
        DatumV::False
    }
}

/// AND and OR of two truth values follow the three-valued truth tables,
/// over the whole table.
pub proof fn lemma_truth_tables(p: DatumV, q: DatumV)
    requires
        p is True || p is False || p is Null,
        q is True || q is False || q is Null,
    ensures
        and_semantics(seq![Ok(p), Ok(q)]) == Ok::<DatumV, ErrV>(kleene_and(p, q)),
        or_semantics(seq![Ok(p), Ok(q)]) == Ok::<DatumV, ErrV>(kleene_or(p, q)),
{
    let vals = seq![Ok::<DatumV, ErrV>(p), Ok::<DatumV, ErrV>(q)];
    let norm = norm_results(vals);
    assert(norm.len() == 2);
    assert(norm[0] == bool_norm(vals[0]));
    assert(norm[1] == bool_norm(vals[1]));
    assert(!has_err(norm)) by {
        if has_err(norm) {
            let i = choose|i: int| 0 <= i < norm.len() && norm[i] is Err;
            assert(i == 0 || i == 1);
        }
    }
    if p is False || q is False {
        assert(has_value(norm, DatumV::False)) by {
            if p is False {
                assert(norm[0] == Ok::<DatumV, ErrV>(DatumV::False));
            } else {
                assert(norm[1] == Ok::<DatumV, ErrV>(DatumV::False));
            }
        }
    } else {
        assert(!has_value(norm, DatumV::False)) by {
            if has_value(norm, DatumV::False) {
                let i = choose|i: int|
                    0 <= i < norm.len() && norm[i] == Ok::<DatumV, ErrV>(DatumV::False);
                assert(i == 0 || i == 1);
            }
        }
    }
    if p is True || q is True {
        assert(has_value(norm, DatumV::True)) by {
            if p is True {
                assert(norm[0] == Ok::<DatumV, ErrV>(DatumV::True));
            } else {
                assert(norm[1] == Ok::<DatumV, ErrV>(DatumV::True));
            }
        }
    } else {
        assert(!has_value(norm, DatumV::True)) by {
            if has_value(norm, DatumV::True) {
                let i = choose|i: int|
                    0 <= i < norm.len() && norm[i] == Ok::<DatumV, ErrV>(DatumV::True);
                assert(i == 0 || i == 1);
            }
        }
    }
    if p is Null || q is Null {
        assert(has_value(norm, DatumV::Null)) by {
            if p is Null {
                assert(norm[0] == Ok::<DatumV, ErrV>(DatumV::Null));
            } else {
                assert(norm[1] == Ok::<DatumV, ErrV>(DatumV::Null));
            }
        }
    } else {
        assert(!has_value(norm, DatumV::Null)) by {
            if has_value(norm, DatumV::Null) {
                let i = choose|i: int|
                    0 <= i < norm.len() && norm[i] == Ok::<DatumV, ErrV>(DatumV::Null);
                assert(i == 0 || i == 1);
            }
        }
    }
}

/// An error among the operands of AND surfaces only when no FALSE operand
/// short-circuits first; the dual holds for OR and TRUE.
pub proof fn lemma_truth_tables_with_error(p: DatumV, e: ErrV)
    requires
        p is True || p is False || p is Null,
    ensures
        p is False ==> and_semantics(seq![Ok(p), Err(e)]) == Ok::<DatumV, ErrV>(DatumV::False),
        !(p is False) ==> and_semantics(seq![Ok(p), Err(e)]) == Err::<DatumV, ErrV>(e),
        p is True ==> or_semantics(seq![Ok(p), Err(e)]) == Ok::<DatumV, ErrV>(DatumV::True),
        !(p is True) ==> or_semantics(seq![Ok(p), Err(e)]) == Err::<DatumV, ErrV>(e),
{
    let vals = seq![Ok::<DatumV, ErrV>(p), Err::<DatumV, ErrV>(e)];
    let norm = norm_results(vals);
    assert(norm.len() == 2);
    assert(norm[0] == bool_norm(vals[0]));
    assert(norm[1] == Err::<DatumV, ErrV>(e));
    assert(has_err(norm)) by {
        assert(norm[1] is Err);
    }
    assert(errs_of(norm) =~= seq![e]) by {
        let pre = norm.drop_last();
        assert(norm.last() == Err::<DatumV, ErrV>(e));
        assert(pre.len() == 1);
        assert(pre.last() == norm[0]);
        assert(pre.drop_last() =~= Seq::<Result<DatumV, ErrV>>::empty());
        assert(errs_of(pre.drop_last()) =~= Seq::<ErrV>::empty());
        assert(!(norm[0] is Err));
        assert(errs_of(pre) =~= Seq::<ErrV>::empty());
        assert(errs_of(norm) =~= errs_of(pre).push(e));
    }
    assert(seq_max_err(errs_of(norm)) == e);
    if p is False {
        assert(has_value(norm, DatumV::False)) by {
            assert(norm[0] == Ok::<DatumV, ErrV>(DatumV::False));
        }
    } else {
        assert(!has_value(norm, DatumV::False)) by {
            if has_value(norm, DatumV::False) {
                let i = choose|i: int|
                    0 <= i < norm.len() && norm[i] == Ok::<DatumV, ErrV>(DatumV::False);
                assert(i == 0 || i == 1);
            }
        }
    }
    if p is True {
        assert(has_value(norm, DatumV::True)) by {
            assert(norm[0] == Ok::<DatumV, ErrV>(DatumV::True));
        }
    } else {
        assert(!has_value(norm, DatumV::True)) by {
            if has_value(norm, DatumV::True) {
                let i = choose|i: int|
                    0 <= i < norm.len() && norm[i] == Ok::<DatumV, ErrV>(DatumV::True);
                assert(i == 0 || i == 1);
            }
        }
    }
}

} // verus!