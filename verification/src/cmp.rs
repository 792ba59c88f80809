//! A structural total order on expressions, used to order the operands of
//! an equality canonically and to sort the operands of AND and OR, so that
//! equal subexpressions become adjacent and deduplicate.

use vstd::prelude::*;

use crate::{ColumnType, ScalarType};
use crate::datum::{Datum, DatumV, datum_cmp_spec, cmp_int};
use crate::error::{EvalError, ErrV, err_cmp_spec};
use crate::func::{BinaryFunc, UnaryFunc, UnmaterializableFunc, VariadicFunc};
use crate::order::Ord3;
use crate::scalar::{ExprV, MirScalarExpr, lemma_views_of, lemma_rows_ok_list, rows_ok, views_of};

verus! {

/// The position of an expression variant in the order.
pub open spec fn expr_rank(e: ExprV) -> int {
    match e {
        ExprV::Column(_) => 0,
        ExprV::Literal(_, _) => 1,
        ExprV::CallUnmaterializable(_) => 2,
        ExprV::CallUnary { .. } => 3,
        ExprV::CallBinary { .. } => 4,
        ExprV::CallVariadic { .. } => 5,
        ExprV::If { .. } => 6,
    }
}

/// The position of a scalar type in the order.
pub open spec fn scalar_rank(t: ScalarType) -> int {
    match t {
        ScalarType::Bool => 0,
        ScalarType::Int16 => 1,
        ScalarType::Int32 => 2,
        ScalarType::Int64 => 3,
        ScalarType::String => 4,
        ScalarType::Bytes => 5,
    }
}

/// Three-way comparison of column types.
pub open spec fn coltype_cmp(a: ColumnType, b: ColumnType) -> Ord3 {
    if scalar_rank(a.scalar_type) != scalar_rank(b.scalar_type) {
        cmp_int(scalar_rank(a.scalar_type), scalar_rank(b.scalar_type))
    } else if a.nullable == b.nullable {
        Ord3::Equal
    } else if !a.nullable {
        Ord3::Less
    } else {
        Ord3::Greater
    }
}

/// The position of an unmaterializable function in the order.
pub open spec fn unmat_rank(f: UnmaterializableFunc) -> int {
    match f {
        UnmaterializableFunc::CurrentDatabase => 0,
        UnmaterializableFunc::CurrentSchema => 1,
        UnmaterializableFunc::CurrentUser => 2,
        UnmaterializableFunc::IsRbacEnabled => 3,
        UnmaterializableFunc::MzIsSuperuser => 4,
        UnmaterializableFunc::MzVersion => 5,
        UnmaterializableFunc::MzVersionNum => 6,
        UnmaterializableFunc::PgBackendPid => 7,
        UnmaterializableFunc::SessionUser => 8,
        UnmaterializableFunc::Version => 9,
    }
}

/// The position of a unary function in the order.
pub open spec fn unary_rank(f: UnaryFunc) -> int {
    match f {
        UnaryFunc::Not => 0,
        UnaryFunc::IsNull => 1,
        UnaryFunc::IsTrue => 2,
        UnaryFunc::IsFalse => 3,
        UnaryFunc::NegInt32 => 4,
        UnaryFunc::NegInt64 => 5,
        UnaryFunc::CastInt16ToInt32 => 6,
        UnaryFunc::CastInt16ToInt64 => 7,
        UnaryFunc::CastInt32ToInt64 => 8,
        UnaryFunc::CastInt32ToInt16 => 9,
        UnaryFunc::CastInt64ToInt16 => 10,
        UnaryFunc::CastInt64ToInt32 => 11,
    }
}

/// The position of a binary function in the order; the two spellings of the
/// LIKE match sort by case treatment.
pub open spec fn binary_rank(f: BinaryFunc) -> int {
    match f {
        BinaryFunc::AddInt16 => 0,
        BinaryFunc::AddInt32 => 1,
        BinaryFunc::AddInt64 => 2,
        BinaryFunc::SubInt16 => 3,
        BinaryFunc::SubInt32 => 4,
        BinaryFunc::SubInt64 => 5,
        BinaryFunc::MulInt16 => 6,
        BinaryFunc::MulInt32 => 7,
        BinaryFunc::MulInt64 => 8,
        BinaryFunc::DivInt16 => 9,
        BinaryFunc::DivInt32 => 10,
        BinaryFunc::DivInt64 => 11,
        BinaryFunc::Eq => 12,
        BinaryFunc::NotEq => 13,
        BinaryFunc::Lt => 14,
        BinaryFunc::Lte => 15,
        BinaryFunc::Gt => 16,
        BinaryFunc::Gte => 17,
        BinaryFunc::IsLikeMatch { case_insensitive } => if case_insensitive {
            19
        } else {
            18
        },
        BinaryFunc::ConstantTimeEqBytes => 20,
        BinaryFunc::ConstantTimeEqStr => 21,
    }
}

/// The position of a variadic function in the order.
pub open spec fn variadic_rank(f: VariadicFunc) -> int {
    match f {
        VariadicFunc::Coalesce => 0,
        VariadicFunc::Greatest => 1,
        VariadicFunc::Least => 2,
        VariadicFunc::And => 3,
        VariadicFunc::Or => 4,
        VariadicFunc::ErrorIfNull => 5,
        VariadicFunc::HmacString => 6,
        VariadicFunc::HmacBytes => 7,
    }
}

/// Three-way comparison of stored literal outcomes: values before errors.
pub open spec fn lit_cmp(a: Result<DatumV, ErrV>, b: Result<DatumV, ErrV>) -> Ord3 {
    match (a, b) {
        (Ok(x), Ok(y)) => datum_cmp_spec(x, y),
        (Ok(_), Err(_)) => Ord3::Less,
        (Err(_), Ok(_)) => Ord3::Greater,
        (Err(x), Err(y)) => err_cmp_spec(x, y),
    }
}

/// The structural total order on expressions: variants in declaration
/// order, then payloads, then children left to right.
pub open spec fn expr_cmp_spec(a: ExprV, b: ExprV) -> Ord3
    decreases a, 1int,
{
    if expr_rank(a) != expr_rank(b) {
        cmp_int(expr_rank(a), expr_rank(b))
    } else {
        match (a, b) {
            (ExprV::Column(i), ExprV::Column(j)) => cmp_int(i, j),
            (ExprV::Literal(l1, t1), ExprV::Literal(l2, t2)) => {
                if lit_cmp(l1, l2) != Ord3::Equal {
                    lit_cmp(l1, l2)
                } else {
                    coltype_cmp(t1, t2)
                }
            }
            (ExprV::CallUnmaterializable(f1), ExprV::CallUnmaterializable(f2)) => cmp_int(
                unmat_rank(f1),
                unmat_rank(f2),
            ),
            (ExprV::CallUnary { func: f1, expr: e1 }, ExprV::CallUnary { func: f2, expr: e2 }) => {
                if unary_rank(f1) != unary_rank(f2) {
                    cmp_int(unary_rank(f1), unary_rank(f2))
                } else {
                    expr_cmp_spec(*e1, *e2)
                }
            }
            (
                ExprV::CallBinary { func: f1, expr1: a1, expr2: b1 },
                ExprV::CallBinary { func: f2, expr1: a2, expr2: b2 },
            ) => {
                if binary_rank(f1) != binary_rank(f2) {
                    cmp_int(binary_rank(f1), binary_rank(f2))
                } else if expr_cmp_spec(*a1, *a2) != Ord3::Equal {
                    expr_cmp_spec(*a1, *a2)
                } else {
                    expr_cmp_spec(*b1, *b2)
                }
            }
            (
                ExprV::CallVariadic { func: f1, exprs: es1 },
                ExprV::CallVariadic { func: f2, exprs: es2 },
            ) => {
                if variadic_rank(f1) != variadic_rank(f2) {
                    cmp_int(variadic_rank(f1), variadic_rank(f2))
                } else if es1.len() != es2.len() {
                    cmp_int(es1.len() as int, es2.len() as int)
                } else {
                    expr_cmp_list(es1, es2)
                }
            }
            (
                ExprV::If { cond: c1, when_true: t1, when_false: f1 },
                ExprV::If { cond: c2, when_true: t2, when_false: f2 },
            ) => {
                if expr_cmp_spec(*c1, *c2) != Ord3::Equal {
                    expr_cmp_spec(*c1, *c2)
                } else if expr_cmp_spec(*t1, *t2) != Ord3::Equal {
                    expr_cmp_spec(*t1, *t2)
                } else {
                    expr_cmp_spec(*f1, *f2)
                }
            }
            _ => Ord3::Equal,
        }
    }
}

/// Lexicographic comparison of equally long expression lists.
pub open spec fn expr_cmp_list(a: Seq<ExprV>, b: Seq<ExprV>) -> Ord3
    decreases a, 0int,
{
    if a.len() == 0 {
        Ord3::Equal
    } else if expr_cmp_spec(a[0], b[0]) != Ord3::Equal {
        expr_cmp_spec(a[0], b[0])
    } else {
        expr_cmp_list(a.drop_first(), b.drop_first())
    }
}

impl MirScalarExpr {
    /// Three-way comparison in the structural order on expressions.
    #[verifier::loop_isolation(false)]
    pub fn cmp_expr(&self, other: &MirScalarExpr) -> (r: Ord3)
        requires
            rows_ok(*self),
            rows_ok(*other),
        ensures
            r == expr_cmp_spec(self@, other@),
        decreases *self,
    {
        let ra = self.rank_exec();
        let rb = other.rank_exec();
        if ra != rb {
            return if ra < rb {
                Ord3::Less
            } else {
                Ord3::Greater
            };
        }
        match (self, other) {
            (MirScalarExpr::Column(i, _), MirScalarExpr::Column(j, _)) => {
                if i < j {
                    Ord3::Less
                } else if j < i {
                    Ord3::Greater
                } else {
                    Ord3::Equal
                }
            }
            (MirScalarExpr::Literal(l1, t1), MirScalarExpr::Literal(l2, t2)) => {
                let first = match (l1, l2) {
                    (Ok(r1), Ok(r2)) => r1.unpack_first().cmp_datum(r2.unpack_first()),
                    (Ok(_), Err(_)) => Ord3::Less,
                    (Err(_), Ok(_)) => Ord3::Greater,
                    (Err(e1), Err(e2)) => e1.cmp_err(e2),
                };
                if !matches!(first, Ord3::Equal) {
                    first
                } else {
                    coltype_cmp_exec(t1, t2)
                }
            }
            (MirScalarExpr::CallUnmaterializable(f1), MirScalarExpr::CallUnmaterializable(f2)) => {
                let x = unmat_rank_exec(f1);
                let y = unmat_rank_exec(f2);
                if x < y {
                    Ord3::Less
                } else if y < x {
                    Ord3::Greater
                } else {
                    Ord3::Equal
                }
            }
            (
                MirScalarExpr::CallUnary { func: f1, expr: e1 },
                MirScalarExpr::CallUnary { func: f2, expr: e2 },
            ) => {
                let x = unary_rank_exec(f1);
                let y = unary_rank_exec(f2);
                if x < y {
                    Ord3::Less
                } else if y < x {
                    Ord3::Greater
                } else {
                    e1.cmp_expr(e2)
                }
            }
            (
                MirScalarExpr::CallBinary { func: f1, expr1: a1, expr2: b1 },
                MirScalarExpr::CallBinary { func: f2, expr1: a2, expr2: b2 },
            ) => {
                let x = binary_rank_exec(f1);
                let y = binary_rank_exec(f2);
                if x < y {
                    Ord3::Less
                } else if y < x {
                    Ord3::Greater
                } else {
                    let first = a1.cmp_expr(a2);
                    if !matches!(first, Ord3::Equal) {
                        first
                    } else {
                        b1.cmp_expr(b2)
                    }
                }
            }
            (
                MirScalarExpr::CallVariadic { func: f1, exprs: es1 },
                MirScalarExpr::CallVariadic { func: f2, exprs: es2 },
            ) => {
                let x = variadic_rank_exec(f1);
                let y = variadic_rank_exec(f2);
                if x < y {
                    return Ord3::Less;
                }
                if y < x {
                    return Ord3::Greater;
                }
                proof {
                    lemma_views_of(es1@);
                    lemma_views_of(es2@);
                    lemma_rows_ok_list(es1@);
                    lemma_rows_ok_list(es2@);
                    assert(views_of(es1@).skip(0) =~= views_of(es1@));
                    assert(views_of(es2@).skip(0) =~= views_of(es2@));
                }
                if es1.len() != es2.len() {
                    return if es1.len() < es2.len() {
                        Ord3::Less
                    } else {
                        Ord3::Greater
                    };
                }
                let mut i: usize = 0;
                while i < es1.len()
                    invariant
                        i <= es1@.len(),
                        expr_cmp_list(views_of(es1@), views_of(es2@)) == expr_cmp_list(
                            views_of(es1@).skip(i as int),
                            views_of(es2@).skip(i as int),
                        ),
                        forall|j: int|
                            0 <= j < i ==> expr_cmp_spec(
                                #[trigger] views_of(es1@)[j],
                                views_of(es2@)[j],
                            ) == Ord3::Equal,
                    decreases es1@.len() - i,
                {
                    let ghost sa = views_of(es1@).skip(i as int);
                    let ghost sb = views_of(es2@).skip(i as int);
                    proof {
                        assert(decreases_to!(*es1 => es1@));
                        assert(decreases_to!(es1@ => es1@[i as int]));
                        assert(sa[0] == views_of(es1@)[i as int]);
                        assert(sb[0] == views_of(es2@)[i as int]);
                        assert(sa.drop_first() =~= views_of(es1@).skip(i + 1));
                        assert(sb.drop_first() =~= views_of(es2@).skip(i + 1));
                        assert(views_of(es1@)[i as int] == es1@[i as int]@);
                        assert(views_of(es2@)[i as int] == es2@[i as int]@);
                    }
                    let c = es1[i].cmp_expr(&es2[i]);
                    if !matches!(c, Ord3::Equal) {
                        return c;
                    }
                    i = i + 1;
                }
                proof {
                    assert(views_of(es1@).skip(i as int).len() == 0);
                }
                Ord3::Equal
            }
            (
                MirScalarExpr::If { cond: c1, when_true: t1, when_false: f1 },
                MirScalarExpr::If { cond: c2, when_true: t2, when_false: f2 },
            ) => {
                let first = c1.cmp_expr(c2);
                if !matches!(first, Ord3::Equal) {
                    return first;
                }
                let second = t1.cmp_expr(t2);
                if !matches!(second, Ord3::Equal) {
                    return second;
                }
                f1.cmp_expr(f2)
            }
            _ => {
                proof {
                    assert(false);
                }
                Ord3::Equal
            }
        }
    }

    /// The position of the expression's variant in the order.
    fn rank_exec(&self) -> (r: u8)
        ensures
            r as int == expr_rank(self@),
    {
        match self {
            MirScalarExpr::Column(_, _) => 0,
            MirScalarExpr::Literal(_, _) => 1,
            MirScalarExpr::CallUnmaterializable(_) => 2,
            MirScalarExpr::CallUnary { .. } => 3,
            MirScalarExpr::CallBinary { .. } => 4,
            MirScalarExpr::CallVariadic { .. } => 5,
            MirScalarExpr::If { .. } => 6,
        }
    }
}

/// Three-way comparison of column types.
fn coltype_cmp_exec(a: &ColumnType, b: &ColumnType) -> (r: Ord3)
    ensures
        r == coltype_cmp(*a, *b),
{
    let x = scalar_rank_exec(&a.scalar_type);
    let y = scalar_rank_exec(&b.scalar_type);
    if x < y {
        Ord3::Less
    } else if y < x {
        Ord3::Greater
    } else if a.nullable == b.nullable {
        Ord3::Equal
    } else if !a.nullable {
        Ord3::Less
    } else {
        Ord3::Greater
    }
}

/// The position of a scalar type in the order.
fn scalar_rank_exec(t: &ScalarType) -> (r: u8)
    ensures
        r as int == scalar_rank(*t),
{
    match t {
        ScalarType::Bool => 0,
        ScalarType::Int16 => 1,
        ScalarType::Int32 => 2,
        ScalarType::Int64 => 3,
        ScalarType::String => 4,
        ScalarType::Bytes => 5,
    }
}

/// The position of an unmaterializable function in the order.
fn unmat_rank_exec(f: &UnmaterializableFunc) -> (r: u8)
    ensures
        r as int == unmat_rank(*f),
{
    match f {
        UnmaterializableFunc::CurrentDatabase => 0,
        UnmaterializableFunc::CurrentSchema => 1,
        UnmaterializableFunc::CurrentUser => 2,
        UnmaterializableFunc::IsRbacEnabled => 3,
        UnmaterializableFunc::MzIsSuperuser => 4,
        UnmaterializableFunc::MzVersion => 5,
        UnmaterializableFunc::MzVersionNum => 6,
        UnmaterializableFunc::PgBackendPid => 7,
        UnmaterializableFunc::SessionUser => 8,
        UnmaterializableFunc::Version => 9,
    }
}

/// The position of a unary function in the order.
fn unary_rank_exec(f: &UnaryFunc) -> (r: u8)
    ensures
        r as int == unary_rank(*f),
{
    match f {
        UnaryFunc::Not => 0,
        UnaryFunc::IsNull => 1,
        UnaryFunc::IsTrue => 2,
        UnaryFunc::IsFalse => 3,
        UnaryFunc::NegInt32 => 4,
        UnaryFunc::NegInt64 => 5,
        UnaryFunc::CastInt16ToInt32 => 6,
        UnaryFunc::CastInt16ToInt64 => 7,
        UnaryFunc::CastInt32ToInt64 => 8,
        UnaryFunc::CastInt32ToInt16 => 9,
        UnaryFunc::CastInt64ToInt16 => 10,
        UnaryFunc::CastInt64ToInt32 => 11,
    }
}

/// The position of a binary function in the order.
fn binary_rank_exec(f: &BinaryFunc) -> (r: u8)
    ensures
        r as int == binary_rank(*f),
{
    match f {
        BinaryFunc::AddInt16 => 0,
        BinaryFunc::AddInt32 => 1,
        BinaryFunc::AddInt64 => 2,
        BinaryFunc::SubInt16 => 3,
        BinaryFunc::SubInt32 => 4,
        BinaryFunc::SubInt64 => 5,
        BinaryFunc::MulInt16 => 6,
        BinaryFunc::MulInt32 => 7,
        BinaryFunc::MulInt64 => 8,
        BinaryFunc::DivInt16 => 9,
        BinaryFunc::DivInt32 => 10,
        BinaryFunc::DivInt64 => 11,
        BinaryFunc::Eq => 12,
        BinaryFunc::NotEq => 13,
        BinaryFunc::Lt => 14,
        BinaryFunc::Lte => 15,
        BinaryFunc::Gt => 16,
        BinaryFunc::Gte => 17,
        BinaryFunc::IsLikeMatch { case_insensitive } => if *case_insensitive {
            19
        } else {
            18
        },
        BinaryFunc::ConstantTimeEqBytes => 20,
        BinaryFunc::ConstantTimeEqStr => 21,
    }
}

/// The position of a variadic function in the order.
fn variadic_rank_exec(f: &VariadicFunc) -> (r: u8)
    ensures
        r as int == variadic_rank(*f),
{
    match f {
        VariadicFunc::Coalesce => 0,
        VariadicFunc::Greatest => 1,
        VariadicFunc::Least => 2,
        VariadicFunc::And => 3,
        VariadicFunc::Or => 4,
        VariadicFunc::ErrorIfNull => 5,
        VariadicFunc::HmacString => 6,
        VariadicFunc::HmacBytes => 7,
    }
}


/// The position of an unmaterializable function in the order.
pub fn unmat_rank_pub(f: &UnmaterializableFunc) -> (r: u8)
    ensures
        r as int == unmat_rank(*f),
{
    unmat_rank_exec(f)
}

/// The position of a unary function in the order.
pub fn unary_rank_pub(f: &UnaryFunc) -> (r: u8)
    ensures
        r as int == unary_rank(*f),
{
    unary_rank_exec(f)
}

/// The position of a binary function in the order.
pub fn binary_rank_pub(f: &BinaryFunc) -> (r: u8)
    ensures
        r as int == binary_rank(*f),
{
    binary_rank_exec(f)
}

/// The position of a variadic function in the order.
pub fn variadic_rank_pub(f: &VariadicFunc) -> (r: u8)
    ensures
        r as int == variadic_rank(*f),
{
    variadic_rank_exec(f)
}

} // verus!