//! The recursive scalar-expression tree: column references, literals,
//! placeholders, function calls and conditionals, together with its
//! mathematical model, well-formedness, the evaluator and type inference.

use vstd::prelude::*;

use crate::{ColumnType, ScalarType};
use crate::datum::{Datum, DatumV, Row};
use crate::error::{EvalError, ErrV};
use crate::func::{
    BinaryFunc, UnaryFunc, UnmaterializableFunc, VariadicFunc, binary_apply, res_view,
    results_view, type_err, unary_apply, variadic_semantics, mk_type_err, apply_variadic,
};

verus! {

/// A scalar expression over an input row.
#[derive(Debug)]
pub enum MirScalarExpr {
    /// A column of the input row, optionally carrying a name kept only for
    /// diagnostics; the name never takes part in equality.
    Column(usize, Option<String>),
    /// A literal value or a literal error, with its column type. Stored as
    /// a one-datum row.
    Literal(Result<Row, EvalError>, ColumnType),
    /// A call to an unmaterializable function; it must be replaced by a
    /// literal before evaluation.
    CallUnmaterializable(UnmaterializableFunc),
    /// A function call with one argument.
    CallUnary { func: UnaryFunc, expr: Box<MirScalarExpr> },
    /// A function call with two arguments.
    CallBinary { func: BinaryFunc, expr1: Box<MirScalarExpr>, expr2: Box<MirScalarExpr> },
    /// A function call with any number of arguments.
    CallVariadic { func: VariadicFunc, exprs: Vec<MirScalarExpr> },
    /// A conditional: only the branch the condition selects is evaluated.
    If { cond: Box<MirScalarExpr>, when_true: Box<MirScalarExpr>, when_false: Box<MirScalarExpr> },
}

/// The mathematical model of an expression; the name of a column reference
/// does not appear in it.
#[verifier::ext_equal]
pub enum ExprV {
    Column(int),
    Literal(Result<DatumV, ErrV>, ColumnType),
    CallUnmaterializable(UnmaterializableFunc),
    CallUnary { func: UnaryFunc, expr: Box<ExprV> },
    CallBinary { func: BinaryFunc, expr1: Box<ExprV>, expr2: Box<ExprV> },
    CallVariadic { func: VariadicFunc, exprs: Seq<ExprV> },
    If { cond: Box<ExprV>, when_true: Box<ExprV>, when_false: Box<ExprV> },
}

/// The model of a stored literal: the single value it holds, or its error.
pub open spec fn lit_view(lit: Result<Row, EvalError>) -> Result<DatumV, ErrV> {
    match lit {
        Ok(row) => Ok(row@[0]),
        Err(e) => Err(e@),
    }
}

/// The models of a list of expressions, in order.
pub open spec fn views_of(es: Seq<MirScalarExpr>) -> Seq<ExprV>
    decreases es,
{
    if es.len() == 0 {
        Seq::empty()
    } else {
        views_of(es.drop_last()).push(expr_view(es.last()))
    }
}

/// `views_of` is the pointwise model of its input.
pub proof fn lemma_views_of(es: Seq<MirScalarExpr>)
    ensures
        views_of(es).len() == es.len(),
        forall|i: int| 0 <= i < es.len() ==> #[trigger] views_of(es)[i] == es[i]@,
    decreases es.len(),
{
    if es.len() > 0 {
        lemma_views_of(es.drop_last());
        assert forall|i: int| 0 <= i < es.len() implies #[trigger] views_of(es)[i]
            == es[i]@ by {
            if i < es.len() - 1 {
                assert(es.drop_last()[i] == es[i]);
            } else {
                assert(es.last() == es[i]);
            }
        }
    }
}

/// The model of an expression.
pub open spec fn expr_view(e: MirScalarExpr) -> ExprV
    decreases e,
    via expr_view_dec
{
    match e {
        MirScalarExpr::Column(i, _) => ExprV::Column(i as int),
        MirScalarExpr::Literal(lit, t) => ExprV::Literal(lit_view(lit), t),
        MirScalarExpr::CallUnmaterializable(f) => ExprV::CallUnmaterializable(f),
        MirScalarExpr::CallUnary { func, expr } => ExprV::CallUnary {
            func,
            expr: Box::new(expr_view(*expr)),
        },
        MirScalarExpr::CallBinary { func, expr1, expr2 } => ExprV::CallBinary {
            func,
            expr1: Box::new(expr_view(*expr1)),
            expr2: Box::new(expr_view(*expr2)),
        },
        MirScalarExpr::CallVariadic { func, exprs } => ExprV::CallVariadic {
            func,
            exprs: views_of(exprs@),
        },
        MirScalarExpr::If { cond, when_true, when_false } => ExprV::If {
            cond: Box::new(expr_view(*cond)),
            when_true: Box::new(expr_view(*when_true)),
            when_false: Box::new(expr_view(*when_false)),
        },
    }
}

#[via_fn]
proof fn expr_view_dec(e: MirScalarExpr) {
    match e {
        MirScalarExpr::CallVariadic { func, exprs } => {
            assert(decreases_to!(e => exprs));
            assert(decreases_to!(exprs => exprs@));
        }
        _ => {}
    }
}

impl View for MirScalarExpr {
    type V = ExprV;

    open spec fn view(&self) -> ExprV {
        expr_view(*self)
    }
}

impl DeepView for MirScalarExpr {
    type V = ExprV;

    open spec fn deep_view(&self) -> ExprV {
        self.view()
    }
}

impl ExprV {
    /// Whether the expression is structurally sound: literals hold exactly
    /// one value whose NULL-ness matches the stored type's nullability, an
    /// error literal is typed non-nullable, and argument counts fit the
    /// functions.
    pub open spec fn wf(self) -> bool
        decreases self,
    {
        match self {
            ExprV::Column(_) => true,
            ExprV::Literal(lit, t) => match lit {
                Ok(d) => t.nullable == (d is Null),
                Err(_) => !t.nullable,
            },
            ExprV::CallUnmaterializable(_) => true,
            ExprV::CallUnary { expr, .. } => expr.wf(),
            ExprV::CallBinary { expr1, expr2, .. } => expr1.wf() && expr2.wf(),
            ExprV::CallVariadic { func, exprs } => {
                &&& func.arity_ok(exprs.len() as int)
                &&& forall|i: int| 0 <= i < exprs.len() ==> #[trigger] exprs[i].wf()
            }
            ExprV::If { cond, when_true, when_false } => {
                cond.wf() && when_true.wf() && when_false.wf()
            }
        }
    }
}

impl MirScalarExpr {
    /// An owned copy of the expression, equal to the original in the model.
    #[verifier::loop_isolation(false)]
    pub fn duplicate(&self) -> (r: MirScalarExpr)
        ensures
            r@ == self@,
            rows_ok(*self) ==> rows_ok(r),
        decreases self,
    {
        match self {
            MirScalarExpr::Column(i, name) => MirScalarExpr::Column(
                *i,
                match name {
                    Some(n) => Some(n.clone()),
                    None => None,
                },
            ),
            MirScalarExpr::Literal(lit, t) => {
                let lit2 = match lit {
                    Ok(row) => Ok(row.duplicate()),
                    Err(e) => Err(e.duplicate()),
                };
                proof {
                    assert(lit_view(lit2) == lit_view(*lit));
                }
                MirScalarExpr::Literal(lit2, *t)
            }
            MirScalarExpr::CallUnmaterializable(f) => MirScalarExpr::CallUnmaterializable(*f),
            MirScalarExpr::CallUnary { func, expr } => MirScalarExpr::CallUnary {
                func: *func,
                expr: Box::new(expr.duplicate()),
            },
            MirScalarExpr::CallBinary { func, expr1, expr2 } => MirScalarExpr::CallBinary {
                func: *func,
                expr1: Box::new(expr1.duplicate()),
                expr2: Box::new(expr2.duplicate()),
            },
            MirScalarExpr::CallVariadic { func, exprs } => {
                proof {
                    if rows_ok(*self) {
                        lemma_rows_ok_list(exprs@);
                    }
                }
                let mut copies: Vec<MirScalarExpr> = Vec::new();
                let mut i: usize = 0;
                while i < exprs.len()
                    invariant
                        i <= exprs@.len(),
                        copies@.len() == i,
                        forall|j: int| 0 <= j < i ==> copies@[j]@ == #[trigger] exprs@[j]@,
                        rows_ok(*self) ==> forall|j: int|
                            0 <= j < i ==> rows_ok(#[trigger] copies@[j]),
                    decreases exprs@.len() - i,
                {
                    proof {
                        assert(decreases_to!(*exprs => exprs@));
                        assert(decreases_to!(exprs@ => exprs@[i as int]));
                        if rows_ok(*self) {
                            assert(rows_ok(exprs@[i as int]));
                        }
                    }
                    copies.push(exprs[i].duplicate());
                    i = i + 1;
                }
                let r = MirScalarExpr::CallVariadic { func: *func, exprs: copies };
                proof {
                    lemma_views_of(copies@);
                    lemma_views_of(exprs@);
                    assert(views_of(copies@) =~= views_of(exprs@));
                    assert(r@ =~= self@);
                    if rows_ok(*self) {
                        lemma_rows_ok_list(copies@);
                    }
                }
                r
            }
            MirScalarExpr::If { cond, when_true, when_false } => MirScalarExpr::If {
                cond: Box::new(cond.duplicate()),
                when_true: Box::new(when_true.duplicate()),
                when_false: Box::new(when_false.duplicate()),
            },
        }
    }
}


/// The error evaluation reports for a placeholder that should have been
/// replaced before execution.
pub open spec fn unmat_err() -> ErrV {
    ErrV::Internal("cannot evaluate unmaterializable function"@)
}

/// Builds the error `unmat_err` names.
pub fn mk_unmat_err() -> (r: EvalError)
    ensures
        r@ == unmat_err(),
{
    EvalError::Internal(String::from_str("cannot evaluate unmaterializable function"))
}

/// The error evaluation reports for a column reference past the row's end.
pub open spec fn column_err() -> ErrV {
    ErrV::Internal("column reference out of range"@)
}

/// Builds the error `column_err` names.
pub fn mk_column_err() -> (r: EvalError)
    ensures
        r@ == column_err(),
{
    EvalError::Internal(String::from_str("column reference out of range"))
}

/// What evaluating an expression against a row returns. Children are
/// evaluated left to right, a child error propagating before the NULL
/// short-circuit of a null-propagating function is applied.
pub open spec fn eval_expr(e: ExprV, row: Seq<DatumV>) -> Result<DatumV, ErrV>
    decreases e, 1int,
{
    match e {
        ExprV::Column(i) => if 0 <= i < row.len() {
            Ok(row[i])
        } else {
            Err(column_err())
        },
        ExprV::Literal(lit, _) => lit,
        ExprV::CallUnmaterializable(_) => Err(unmat_err()),
        ExprV::CallUnary { func, expr } => match eval_expr(*expr, row) {
            Err(e) => Err(e),
            Ok(d) => if func.propagates_nulls_spec() && d is Null {
                Ok(DatumV::Null)
            } else {
                unary_apply(func, d)
            },
        },
        ExprV::CallBinary { func, expr1, expr2 } => {
            let r1 = eval_expr(*expr1, row);
            let r2 = eval_expr(*expr2, row);
            match (r1, r2) {
                (Err(e), _) => Err(e),
                (Ok(_), Err(e)) => Err(e),
                (Ok(a), Ok(b)) => if func.propagates_nulls_spec() && (a is Null || b is Null) {
                    Ok(DatumV::Null)
                } else {
                    binary_apply(func, a, b)
                },
            }
        }
        ExprV::CallVariadic { func, exprs } => variadic_semantics(func, eval_args(exprs, row)),
        ExprV::If { cond, when_true, when_false } => match eval_expr(*cond, row) {
            Err(e) => Err(e),
            Ok(DatumV::True) => eval_expr(*when_true, row),
            Ok(DatumV::False) => eval_expr(*when_false, row),
            Ok(DatumV::Null) => eval_expr(*when_false, row),
            Ok(_) => Err(type_err()),
        },
    }
}

/// The outcomes of evaluating each expression of a list, in order.
pub open spec fn eval_args(es: Seq<ExprV>, row: Seq<DatumV>) -> Seq<Result<DatumV, ErrV>>
    decreases es, 0int,
{
    if es.len() == 0 {
        Seq::empty()
    } else {
        eval_args(es.drop_last(), row).push(eval_expr(es.last(), row))
    }
}

/// `eval_args` is the pointwise evaluation of its input.
pub proof fn lemma_eval_args(es: Seq<ExprV>, row: Seq<DatumV>)
    ensures
        eval_args(es, row).len() == es.len(),
        forall|i: int|
            0 <= i < es.len() ==> #[trigger] eval_args(es, row)[i] == eval_expr(es[i], row),
    decreases es.len(),
{
    if es.len() > 0 {
        lemma_eval_args(es.drop_last(), row);
        assert forall|i: int| 0 <= i < es.len() implies #[trigger] eval_args(es, row)[i]
            == eval_expr(es[i], row) by {
            if i < es.len() - 1 {
                assert(es.drop_last()[i] == es[i]);
            } else {
                assert(es.last() == es[i]);
            }
        }
    }
}

/// Whether every literal of the expression stores exactly one value, as
/// the representation demands.
pub open spec fn rows_ok(e: MirScalarExpr) -> bool
    decreases e,
    via rows_ok_dec
{
    match e {
        MirScalarExpr::Column(_, _) => true,
        MirScalarExpr::Literal(lit, _) => match lit {
            Ok(row) => row@.len() == 1,
            Err(_) => true,
        },
        MirScalarExpr::CallUnmaterializable(_) => true,
        MirScalarExpr::CallUnary { expr, .. } => rows_ok(*expr),
        MirScalarExpr::CallBinary { expr1, expr2, .. } => rows_ok(*expr1) && rows_ok(*expr2),
        MirScalarExpr::CallVariadic { exprs, .. } => rows_ok_list(exprs@),
        MirScalarExpr::If { cond, when_true, when_false } => {
            rows_ok(*cond) && rows_ok(*when_true) && rows_ok(*when_false)
        }
    }
}

#[via_fn]
proof fn rows_ok_dec(e: MirScalarExpr) {
    match e {
        MirScalarExpr::CallVariadic { func, exprs } => {
            assert(decreases_to!(e => exprs));
            assert(decreases_to!(exprs => exprs@));
        }
        _ => {}
    }
}

/// Whether every expression of a list satisfies `rows_ok`.
pub open spec fn rows_ok_list(es: Seq<MirScalarExpr>) -> bool
    decreases es, 0int,
{
    if es.len() == 0 {
        true
    } else {
        rows_ok_list(es.drop_last()) && rows_ok(es.last())
    }
}

/// `rows_ok_list` holds exactly when `rows_ok` holds of every element.
pub proof fn lemma_rows_ok_list(es: Seq<MirScalarExpr>)
    ensures
        rows_ok_list(es) <==> (forall|i: int| 0 <= i < es.len() ==> rows_ok(#[trigger] es[i])),
    decreases es.len(),
{
    if es.len() > 0 {
        lemma_rows_ok_list(es.drop_last());
        if rows_ok_list(es) {
            assert forall|i: int| 0 <= i < es.len() implies rows_ok(#[trigger] es[i]) by {
                if i < es.len() - 1 {
                    assert(es.drop_last()[i] == es[i]);
                } else {
                    assert(es.last() == es[i]);
                }
            }
        }
        if forall|i: int| 0 <= i < es.len() ==> rows_ok(#[trigger] es[i]) {
            assert forall|i: int| 0 <= i < es.drop_last().len() implies rows_ok(
                #[trigger] es.drop_last()[i],
            ) by {
                assert(es.drop_last()[i] == es[i]);
            }
            assert(rows_ok(es.last()));
        }
    }
}

impl MirScalarExpr {
    /// Evaluates the expression against a row. The stored literals must be
    /// packed as the representation demands; nothing else is assumed, and
    /// every planner-contract violation surfaces as an internal error.
    #[verifier::loop_isolation(false)]
    pub fn eval(&self, datums: &Vec<Datum>) -> (r: Result<Datum, EvalError>)
        requires
            rows_ok(*self),
        ensures
            res_view(r) == eval_expr(self@, datums.deep_view()),
        decreases *self,
    {
        match self {
            MirScalarExpr::Column(i, _) => {
                if *i < datums.len() {
                    Ok(datums[*i].duplicate())
                } else {
                    Err(mk_column_err())
                }
            }
            MirScalarExpr::Literal(lit, _) => match lit {
                Ok(row) => Ok(row.unpack_first().duplicate()),
                Err(e) => Err(e.duplicate()),
            },
            MirScalarExpr::CallUnmaterializable(_) => Err(mk_unmat_err()),
            MirScalarExpr::CallUnary { func, expr } => match expr.eval(datums) {
                Err(e) => Err(e),
                Ok(d) => {
                    if func.propagates_nulls() && d.is_null() {
                        Ok(Datum::Null)
                    } else {
                        func.apply(&d)
                    }
                }
            },
            MirScalarExpr::CallBinary { func, expr1, expr2 } => match expr1.eval(datums) {
                Err(e) => Err(e),
                Ok(a) => match expr2.eval(datums) {
                    Err(e) => Err(e),
                    Ok(b) => {
                        if func.propagates_nulls() && (a.is_null() || b.is_null()) {
                            Ok(Datum::Null)
                        } else {
                            func.apply(&a, &b)
                        }
                    }
                },
            },
            MirScalarExpr::CallVariadic { func, exprs } => {
                let ghost es_views = views_of(exprs@);
                let ghost ev = eval_args(es_views, datums.deep_view());
                proof {
                    lemma_views_of(exprs@);
                    lemma_eval_args(es_views, datums.deep_view());
                    lemma_rows_ok_list(exprs@);
                }
                let mut vals: Vec<Result<Datum, EvalError>> = Vec::new();
                let mut i: usize = 0;
                while i < exprs.len()
                    invariant
                        i <= exprs@.len(),
                        vals@.len() == i,
                        forall|j: int|
                            0 <= j < i ==> res_view(#[trigger] vals@[j]) == ev[j],
                    decreases exprs@.len() - i,
                {
                    proof {
                        assert(decreases_to!(*exprs => exprs@));
                        assert(decreases_to!(exprs@ => exprs@[i as int]));
                    }
                    vals.push(exprs[i].eval(datums));
                    i = i + 1;
                }
                proof {
                    assert(results_view(vals@) =~= ev);
                }
                apply_variadic(func, &vals)
            }
            MirScalarExpr::If { cond, when_true, when_false } => match cond.eval(datums) {
                Err(e) => Err(e),
                Ok(Datum::True) => when_true.eval(datums),
                Ok(Datum::False) => when_false.eval(datums),
                Ok(Datum::Null) => when_false.eval(datums),
                Ok(_) => Err(mk_type_err()),
            },
        }
    }
}


/// Whether type inference is defined for the expression against the given
/// input schema: column references are in range, argument counts fit, the
/// uniform-type variadic functions get arguments of one scalar type, and
/// the branches of a conditional unify.
pub open spec fn typ_ok(e: ExprV, ctx: Seq<ColumnType>) -> bool
    decreases e, 1int,
{
    match e {
        ExprV::Column(i) => 0 <= i < ctx.len(),
        ExprV::Literal(_, _) => true,
        ExprV::CallUnmaterializable(_) => true,
        ExprV::CallUnary { expr, .. } => typ_ok(*expr, ctx),
        ExprV::CallBinary { expr1, expr2, .. } => typ_ok(*expr1, ctx) && typ_ok(*expr2, ctx),
        ExprV::CallVariadic { func, exprs } => {
            &&& func.arity_ok(exprs.len() as int)
            &&& typ_ok_list(exprs, ctx)
            &&& ((func is Coalesce || func is Greatest || func is Least) ==> forall|i: int|
                0 <= i < exprs.len() ==> (#[trigger] typ_spec(exprs[i], ctx)).scalar_type
                    == typ_spec(exprs[0], ctx).scalar_type)
        }
        ExprV::If { cond, when_true, when_false } => {
            &&& typ_ok(*cond, ctx)
            &&& typ_ok(*when_true, ctx)
            &&& typ_ok(*when_false, ctx)
            &&& typ_spec(*when_true, ctx).scalar_type == typ_spec(*when_false, ctx).scalar_type
        }
    }
}

/// Whether type inference is defined for every expression of a list.
pub open spec fn typ_ok_list(es: Seq<ExprV>, ctx: Seq<ColumnType>) -> bool
    decreases es, 0int,
{
    if es.len() == 0 {
        true
    } else {
        typ_ok_list(es.drop_last(), ctx) && typ_ok(es.last(), ctx)
    }
}

/// `typ_ok_list` holds exactly when `typ_ok` holds of every element.
pub proof fn lemma_typ_ok_list(es: Seq<ExprV>, ctx: Seq<ColumnType>)
    ensures
        typ_ok_list(es, ctx) <==> (forall|i: int|
            0 <= i < es.len() ==> typ_ok(#[trigger] es[i], ctx)),
    decreases es.len(),
{
    if es.len() > 0 {
        lemma_typ_ok_list(es.drop_last(), ctx);
        if typ_ok_list(es, ctx) {
            assert forall|i: int| 0 <= i < es.len() implies typ_ok(#[trigger] es[i], ctx) by {
                if i < es.len() - 1 {
                    assert(es.drop_last()[i] == es[i]);
                } else {
                    assert(es.last() == es[i]);
                }
            }
        }
        if forall|i: int| 0 <= i < es.len() ==> typ_ok(#[trigger] es[i], ctx) {
            assert forall|i: int| 0 <= i < es.drop_last().len() implies typ_ok(
                #[trigger] es.drop_last()[i],
                ctx,
            ) by {
                assert(es.drop_last()[i] == es[i]);
            }
            assert(typ_ok(es.last(), ctx));
        }
    }
}

/// The column type of an expression against an input schema.
pub open spec fn typ_spec(e: ExprV, ctx: Seq<ColumnType>) -> ColumnType
    decreases e, 1int,
{
    match e {
        ExprV::Column(i) => ctx[i],
        ExprV::Literal(_, t) => t,
        ExprV::CallUnmaterializable(f) => f.output_type_spec(),
        ExprV::CallUnary { func, expr } => func.output_type_spec(typ_spec(*expr, ctx)),
        ExprV::CallBinary { func, expr1, expr2 } => func.output_type_spec(
            typ_spec(*expr1, ctx),
            typ_spec(*expr2, ctx),
        ),
        ExprV::CallVariadic { func, exprs } => func.output_type_spec(types_of(exprs, ctx)),
        ExprV::If { cond, when_true, when_false } => {
            let t = typ_spec(*when_true, ctx);
            let f = typ_spec(*when_false, ctx);
            ColumnType { scalar_type: t.scalar_type, nullable: t.nullable || f.nullable }
        }
    }
}

/// The column types of each expression of a list, in order.
pub open spec fn types_of(es: Seq<ExprV>, ctx: Seq<ColumnType>) -> Seq<ColumnType>
    decreases es, 0int,
{
    if es.len() == 0 {
        Seq::empty()
    } else {
        types_of(es.drop_last(), ctx).push(typ_spec(es.last(), ctx))
    }
}

/// `types_of` is the pointwise type of its input.
pub proof fn lemma_types_of(es: Seq<ExprV>, ctx: Seq<ColumnType>)
    ensures
        types_of(es, ctx).len() == es.len(),
        forall|i: int|
            0 <= i < es.len() ==> #[trigger] types_of(es, ctx)[i] == typ_spec(es[i], ctx),
    decreases es.len(),
{
    if es.len() > 0 {
        lemma_types_of(es.drop_last(), ctx);
        assert forall|i: int| 0 <= i < es.len() implies #[trigger] types_of(es, ctx)[i]
            == typ_spec(es[i], ctx) by {
            if i < es.len() - 1 {
                assert(es.drop_last()[i] == es[i]);
            } else {
                assert(es.last() == es[i]);
            }
        }
    }
}

impl MirScalarExpr {
    /// The column type of the expression against an input schema; defined
    /// for expressions an accepted plan can contain.
    #[verifier::loop_isolation(false)]
    pub fn typ(&self, column_types: &Vec<ColumnType>) -> (r: ColumnType)
        requires
            typ_ok(self@, column_types@),
        ensures
            r == typ_spec(self@, column_types@),
        decreases *self,
    {
        match self {
            MirScalarExpr::Column(i, _) => column_types[*i],
            MirScalarExpr::Literal(_, t) => *t,
            MirScalarExpr::CallUnmaterializable(f) => f.output_type(),
            MirScalarExpr::CallUnary { func, expr } => func.output_type(expr.typ(column_types)),
            MirScalarExpr::CallBinary { func, expr1, expr2 } => func.output_type(
                expr1.typ(column_types),
                expr2.typ(column_types),
            ),
            MirScalarExpr::CallVariadic { func, exprs } => {
                let ghost es_views = views_of(exprs@);
                proof {
                    lemma_views_of(exprs@);
                    lemma_types_of(es_views, column_types@);
                    lemma_typ_ok_list(es_views, column_types@);
                }
                let mut types: Vec<ColumnType> = Vec::new();
                let mut i: usize = 0;
                while i < exprs.len()
                    invariant
                        i <= exprs@.len(),
                        types@.len() == i,
                        forall|j: int|
                            0 <= j < i ==> #[trigger] types@[j] == types_of(
                                es_views,
                                column_types@,
                            )[j],
                    decreases exprs@.len() - i,
                {
                    proof {
                        assert(decreases_to!(*exprs => exprs@));
                        assert(decreases_to!(exprs@ => exprs@[i as int]));
                        assert(views_of(exprs@)[i as int] == exprs@[i as int]@);
                        assert(typ_ok(views_of(exprs@)[i as int], column_types@));
                    }
                    types.push(exprs[i].typ(column_types));
                    i = i + 1;
                }
                proof {
                    assert(types@ =~= types_of(es_views, column_types@));
                }
                func.output_type(&types)
            }
            MirScalarExpr::If { cond: _, when_true, when_false } => {
                let t = when_true.typ(column_types);
                let f = when_false.typ(column_types);
                ColumnType { scalar_type: t.scalar_type, nullable: t.nullable || f.nullable }
            }
        }
    }
}

/// The model of the literal an evaluation outcome and a scalar type make:
/// the stored type is nullable exactly for a NULL value, and never for an
/// error.
pub open spec fn literal_spec(res: Result<DatumV, ErrV>, typ: ScalarType) -> ExprV {
    let nullable = match res {
        Ok(d) => d is Null,
        Err(_) => false,
    };
    ExprV::Literal(res, ColumnType { scalar_type: typ, nullable })
}

impl MirScalarExpr {
    /// A reference to the given column.
    pub fn column(column: usize) -> (r: MirScalarExpr)
        ensures
            r@ == ExprV::Column(column as int),
            rows_ok(r),
    {
        MirScalarExpr::Column(column, None)
    }

    /// A reference to the given column, carrying a diagnostic name.
    pub fn named_column(column: usize, name: String) -> (r: MirScalarExpr)
        ensures
            r@ == ExprV::Column(column as int),
            rows_ok(r),
    {
        MirScalarExpr::Column(column, Some(name))
    }

    /// A literal holding the given evaluation outcome, typed so that the
    /// literal invariant holds.
    pub fn literal(res: Result<Datum, EvalError>, typ: ScalarType) -> (r: MirScalarExpr)
        ensures
            r@ == literal_spec(res_view(res), typ),
            rows_ok(r),
    {
        let nullable = match &res {
            Ok(d) => d.is_null(),
            Err(_) => false,
        };
        let lit = match res {
            Ok(d) => Ok(Row::pack_one(d)),
            Err(e) => Err(e),
        };
        let r = MirScalarExpr::Literal(lit, ColumnType { scalar_type: typ, nullable });
        proof {
            assert(r@ == literal_spec(res_view(res), typ));
        }
        r
    }

    /// A literal holding the given value.
    pub fn literal_ok(datum: Datum, typ: ScalarType) -> (r: MirScalarExpr)
        ensures
            r@ == literal_spec(Ok(datum@), typ),
            rows_ok(r),
    {
        MirScalarExpr::literal(Ok(datum), typ)
    }

    /// The NULL literal of the given type.
    pub fn literal_null(typ: ScalarType) -> (r: MirScalarExpr)
        ensures
            r@ == literal_spec(Ok(DatumV::Null), typ),
            rows_ok(r),
    {
        MirScalarExpr::literal_ok(Datum::Null, typ)
    }

    /// The boolean literal FALSE.
    pub fn literal_false() -> (r: MirScalarExpr)
        ensures
            r@ == literal_spec(Ok(DatumV::False), ScalarType::Bool),
            rows_ok(r),
    {
        MirScalarExpr::literal_ok(Datum::False, ScalarType::Bool)
    }

    /// The boolean literal TRUE.
    pub fn literal_true() -> (r: MirScalarExpr)
        ensures
            r@ == literal_spec(Ok(DatumV::True), ScalarType::Bool),
            rows_ok(r),
    {
        MirScalarExpr::literal_ok(Datum::True, ScalarType::Bool)
    }

    /// The given unary function applied to this expression.
    pub fn call_unary(self, func: UnaryFunc) -> (r: MirScalarExpr)
        ensures
            r@ == (ExprV::CallUnary { func, expr: Box::new(self@) }),
            rows_ok(self) ==> rows_ok(r),
    {
        MirScalarExpr::CallUnary { func, expr: Box::new(self) }
    }

    /// The given binary function applied to this and another expression.
    pub fn call_binary(self, other: MirScalarExpr, func: BinaryFunc) -> (r: MirScalarExpr)
        ensures
            r@ == (ExprV::CallBinary {
                func,
                expr1: Box::new(self@),
                expr2: Box::new(other@),
            }),
            rows_ok(self) && rows_ok(other) ==> rows_ok(r),
    {
        MirScalarExpr::CallBinary { func, expr1: Box::new(self), expr2: Box::new(other) }
    }

    /// A conditional with this expression as its condition.
    pub fn if_then_else(self, t: MirScalarExpr, f: MirScalarExpr) -> (r: MirScalarExpr)
        ensures
            r@ == (ExprV::If {
                cond: Box::new(self@),
                when_true: Box::new(t@),
                when_false: Box::new(f@),
            }),
            rows_ok(self) && rows_ok(t) && rows_ok(f) ==> rows_ok(r),
    {
        MirScalarExpr::If {
            cond: Box::new(self),
            when_true: Box::new(t),
            when_false: Box::new(f),
        }
    }

    /// The disjunction of this and another expression.
    pub fn or(self, other: MirScalarExpr) -> (r: MirScalarExpr)
        ensures
            r@ == (ExprV::CallVariadic { func: VariadicFunc::Or, exprs: seq![self@, other@] }),
            rows_ok(self) && rows_ok(other) ==> rows_ok(r),
    {
        let ghost va = self@;
        let ghost vb = other@;
        let pair = vec![self, other];
        proof {
            lemma_views_of(pair@);
            lemma_rows_ok_list(pair@);
            assert(views_of(pair@) =~= seq![va, vb]);
        }
        MirScalarExpr::CallVariadic { func: VariadicFunc::Or, exprs: pair }
    }

    /// The conjunction of this and another expression.
    pub fn and(self, other: MirScalarExpr) -> (r: MirScalarExpr)
        ensures
            r@ == (ExprV::CallVariadic { func: VariadicFunc::And, exprs: seq![self@, other@] }),
            rows_ok(self) && rows_ok(other) ==> rows_ok(r),
    {
        let ghost va = self@;
        let ghost vb = other@;
        let pair = vec![self, other];
        proof {
            lemma_views_of(pair@);
            lemma_rows_ok_list(pair@);
            assert(views_of(pair@) =~= seq![va, vb]);
        }
        MirScalarExpr::CallVariadic { func: VariadicFunc::And, exprs: pair }
    }

    /// The negation of this expression.
    pub fn not(self) -> (r: MirScalarExpr)
        ensures
            r@ == (ExprV::CallUnary { func: UnaryFunc::Not, expr: Box::new(self@) }),
            rows_ok(self) ==> rows_ok(r),
    {
        self.call_unary(UnaryFunc::Not)
    }

    /// The IS NULL test of this expression.
    pub fn call_is_null(self) -> (r: MirScalarExpr)
        ensures
            r@ == (ExprV::CallUnary { func: UnaryFunc::IsNull, expr: Box::new(self@) }),
            rows_ok(self) ==> rows_ok(r),
    {
        self.call_unary(UnaryFunc::IsNull)
    }

    /// Replaces this expression by a harmless placeholder literal and hands
    /// the original back, enabling move-without-copy during rewrites. The
    /// placeholder never survives a completed rewrite.
    pub fn take(&mut self) -> (r: MirScalarExpr)
        ensures
            r@ == old(self)@,
            rows_ok(*old(self)) ==> rows_ok(r),
            final(self)@ == literal_spec(Ok(DatumV::Null), ScalarType::String),
            rows_ok(*final(self)),
    {
        let mut tmp = MirScalarExpr::literal_null(ScalarType::String);
        core::mem::swap(self, &mut tmp);
        tmp
    }
}


impl MirScalarExpr {
    /// Whether two expressions are equal in the model; a column's
    /// diagnostic name takes no part.
    #[verifier::loop_isolation(false)]
    pub fn eq_expr(&self, other: &MirScalarExpr) -> (r: bool)
        requires
            rows_ok(*self),
            rows_ok(*other),
        ensures
            r == (self@ == other@),
        decreases *self,
    {
        match (self, other) {
            (MirScalarExpr::Column(i, _), MirScalarExpr::Column(j, _)) => i == j,
            (MirScalarExpr::Literal(l1, t1), MirScalarExpr::Literal(l2, t2)) => {
                let lits_eq = match (l1, l2) {
                    (Ok(r1), Ok(r2)) => r1.unpack_first().eq_datum(r2.unpack_first()),
                    (Err(e1), Err(e2)) => e1.eq_err(e2),
                    _ => false,
                };
                lits_eq && *t1 == *t2
            }
            (MirScalarExpr::CallUnmaterializable(f1), MirScalarExpr::CallUnmaterializable(f2)) => {
                f1 == f2
            }
            (
                MirScalarExpr::CallUnary { func: f1, expr: e1 },
                MirScalarExpr::CallUnary { func: f2, expr: e2 },
            ) => f1 == f2 && e1.eq_expr(e2),
            (
                MirScalarExpr::CallBinary { func: f1, expr1: a1, expr2: b1 },
                MirScalarExpr::CallBinary { func: f2, expr1: a2, expr2: b2 },
            ) => f1 == f2 && a1.eq_expr(a2) && b1.eq_expr(b2),
            (
                MirScalarExpr::CallVariadic { func: f1, exprs: es1 },
                MirScalarExpr::CallVariadic { func: f2, exprs: es2 },
            ) => {
                proof {
                    lemma_views_of(es1@);
                    lemma_views_of(es2@);
                    lemma_rows_ok_list(es1@);
                    lemma_rows_ok_list(es2@);
                }
                if f1 != f2 || es1.len() != es2.len() {
                    proof {
                        if self@ == other@ {
                            assert(views_of(es1@).len() == views_of(es2@).len());
                        }
                    }
                    return false;
                }
                let mut i: usize = 0;
                while i < es1.len()
                    invariant
                        i <= es1@.len(),
                        forall|j: int|
                            0 <= j < i ==> #[trigger] views_of(es1@)[j] == views_of(es2@)[j],
                    decreases es1@.len() - i,
                {
                    proof {
                        assert(decreases_to!(*es1 => es1@));
                        assert(decreases_to!(es1@ => es1@[i as int]));
                        assert(views_of(es1@)[i as int] == es1@[i as int]@);
                        assert(views_of(es2@)[i as int] == es2@[i as int]@);
                    }
                    if !es1[i].eq_expr(&es2[i]) {
                        proof {
                            if self@ == other@ {
                                assert(views_of(es1@)[i as int] == views_of(es2@)[i as int]);
                            }
                        }
                        return false;
                    }
                    i = i + 1;
                }
                proof {
                    assert(views_of(es1@) =~= views_of(es2@));
                }
                true
            }
            (
                MirScalarExpr::If { cond: c1, when_true: t1, when_false: f1 },
                MirScalarExpr::If { cond: c2, when_true: t2, when_false: f2 },
            ) => c1.eq_expr(c2) && t1.eq_expr(t2) && f1.eq_expr(f2),
            _ => false,
        }
    }

    /// The stored outcome, if the expression is a literal.
    pub fn as_literal(&self) -> (r: Option<Result<&Datum, &EvalError>>)
        requires
            rows_ok(*self),
        ensures
            match r {
                Some(lit) => self@ matches ExprV::Literal(l, _) && l == (match lit {
                    Ok(d) => Ok::<DatumV, ErrV>(d@),
                    Err(e) => Err::<DatumV, ErrV>(e@),
                }),
                None => !(self@ is Literal),
            },
    {
        match self {
            MirScalarExpr::Literal(Ok(row), _) => Some(Ok(row.unpack_first())),
            MirScalarExpr::Literal(Err(e), _) => Some(Err(e)),
            _ => None,
        }
    }

    /// An owned copy of the stored outcome, if the expression is a literal.
    pub fn as_literal_owned(&self) -> (r: Option<Result<Datum, EvalError>>)
        requires
            rows_ok(*self),
        ensures
            match r {
                Some(lit) => self@ matches ExprV::Literal(l, _) && l == res_view(lit),
                None => !(self@ is Literal),
            },
    {
        match self {
            MirScalarExpr::Literal(Ok(row), _) => Some(Ok(row.unpack_first().duplicate())),
            MirScalarExpr::Literal(Err(e), _) => Some(Err(e.duplicate())),
            _ => None,
        }
    }

    /// The stored string, if the expression is a string literal.
    pub fn as_literal_str(&self) -> (r: Option<&String>)
        requires
            rows_ok(*self),
        ensures
            match r {
                Some(s) => self@ matches ExprV::Literal(l, _) && l == Ok::<DatumV, ErrV>(
                    DatumV::Str(s@),
                ),
                None => !(self@ matches ExprV::Literal(l, _) && l matches Ok(d) && d is Str),
            },
    {
        match self {
            MirScalarExpr::Literal(Ok(row), _) => match row.unpack_first() {
                Datum::Str(s) => Some(s),
                _ => None,
            },
            _ => None,
        }
    }

    /// The stored value, if the expression is a 64-bit integer literal.
    pub fn as_literal_int64(&self) -> (r: Option<i64>)
        requires
            rows_ok(*self),
        ensures
            match r {
                Some(v) => self@ matches ExprV::Literal(l, _) && l == Ok::<DatumV, ErrV>(
                    DatumV::Int64(v),
                ),
                None => !(self@ matches ExprV::Literal(l, _) && l matches Ok(d) && d is Int64),
            },
    {
        match self {
            MirScalarExpr::Literal(Ok(row), _) => match row.unpack_first() {
                Datum::Int64(v) => Some(*v),
                _ => None,
            },
            _ => None,
        }
    }

    /// The stored error, if the expression is an error literal.
    pub fn as_literal_err(&self) -> (r: Option<&EvalError>)
        ensures
            match r {
                Some(e) => self@ matches ExprV::Literal(l, _) && l == Err::<DatumV, ErrV>(e@),
                None => !(self@ matches ExprV::Literal(l, _) && l is Err),
            },
    {
        match self {
            MirScalarExpr::Literal(Err(e), _) => Some(e),
            _ => None,
        }
    }

    /// Whether the expression is a literal.
    pub fn is_literal(&self) -> (r: bool)
        ensures
            r == (self@ is Literal),
    {
        matches!(self, MirScalarExpr::Literal(_, _))
    }

    /// Whether the expression is the literal TRUE.
    pub fn is_literal_true(&self) -> (r: bool)
        requires
            rows_ok(*self),
        ensures
            r == (self@ matches ExprV::Literal(l, _) && l == Ok::<DatumV, ErrV>(DatumV::True)),
    {
        match self {
            MirScalarExpr::Literal(Ok(row), _) => matches!(row.unpack_first(), Datum::True),
            _ => false,
        }
    }

    /// Whether the expression is the literal FALSE.
    pub fn is_literal_false(&self) -> (r: bool)
        requires
            rows_ok(*self),
        ensures
            r == (self@ matches ExprV::Literal(l, _) && l == Ok::<DatumV, ErrV>(DatumV::False)),
    {
        match self {
            MirScalarExpr::Literal(Ok(row), _) => matches!(row.unpack_first(), Datum::False),
            _ => false,
        }
    }

    /// Whether the expression is a literal NULL.
    pub fn is_literal_null(&self) -> (r: bool)
        requires
            rows_ok(*self),
        ensures
            r == (self@ matches ExprV::Literal(l, _) && l == Ok::<DatumV, ErrV>(DatumV::Null)),
    {
        match self {
            MirScalarExpr::Literal(Ok(row), _) => matches!(row.unpack_first(), Datum::Null),
            _ => false,
        }
    }

    /// Whether the expression is a literal value.
    pub fn is_literal_ok(&self) -> (r: bool)
        ensures
            r == (self@ matches ExprV::Literal(l, _) && l is Ok),
    {
        matches!(self, MirScalarExpr::Literal(Ok(_), _))
    }

    /// Whether the expression is a literal error.
    pub fn is_literal_err(&self) -> (r: bool)
        ensures
            r == (self@ matches ExprV::Literal(l, _) && l is Err),
    {
        matches!(self, MirScalarExpr::Literal(Err(_), _))
    }

    /// Whether the expression is a column reference.
    pub fn is_column(&self) -> (r: bool)
        ensures
            r == (self@ is Column),
    {
        matches!(self, MirScalarExpr::Column(_, _))
    }

    /// The column index, if the expression is a column reference.
    pub fn as_column(&self) -> (r: Option<usize>)
        ensures
            match r {
                Some(i) => self@ == ExprV::Column(i as int),
                None => !(self@ is Column),
            },
    {
        match self {
            MirScalarExpr::Column(i, _) => Some(*i),
            _ => None,
        }
    }

    /// Whether the expression is a call of ERROR_IF_NULL.
    pub fn is_error_if_null(&self) -> (r: bool)
        ensures
            r == (self@ matches ExprV::CallVariadic { func: VariadicFunc::ErrorIfNull, .. }),
    {
        matches!(
            self,
            MirScalarExpr::CallVariadic { func: VariadicFunc::ErrorIfNull, .. },
        )
    }
}


/// A conservative check that an expression cannot evaluate to NULL on a
/// row that respects the assumed column nullability, wherever evaluation
/// returns a value at all.
pub open spec fn must_be_nonnull(e: ExprV, ctx: Seq<ColumnType>) -> bool
    decreases e, 1int,
{
    match e {
        ExprV::Column(i) => 0 <= i < ctx.len() && !ctx[i].nullable,
        ExprV::Literal(lit, _) => match lit {
            Ok(d) => !(d is Null),
            Err(_) => true,
        },
        ExprV::CallUnmaterializable(_) => true,
        ExprV::CallUnary { func, expr } => !func.introduces_nulls_spec() && (
        func.propagates_nulls_spec() ==> must_be_nonnull(*expr, ctx)),
        ExprV::CallBinary { func, expr1, expr2 } => {
            &&& !func.introduces_nulls_spec()
            &&& (func.propagates_nulls_spec() ==> must_be_nonnull(*expr1, ctx) && must_be_nonnull(
                *expr2,
                ctx,
            ))
        }
        ExprV::CallVariadic { func, exprs } => match func {
            VariadicFunc::And | VariadicFunc::Or | VariadicFunc::HmacString
            | VariadicFunc::HmacBytes => all_must_be_nonnull(exprs, ctx),
            VariadicFunc::Coalesce | VariadicFunc::Greatest | VariadicFunc::Least => {
                exists|i: int| 0 <= i < exprs.len() && must_be_nonnull(#[trigger] exprs[i], ctx)
            }
            VariadicFunc::ErrorIfNull => true,
        },
        ExprV::If { cond, when_true, when_false } => must_be_nonnull(*when_true, ctx)
            && must_be_nonnull(*when_false, ctx),
    }
}

/// Whether every expression of a list passes `must_be_nonnull`.
pub open spec fn all_must_be_nonnull(es: Seq<ExprV>, ctx: Seq<ColumnType>) -> bool
    decreases es, 0int,
{
    if es.len() == 0 {
        true
    } else {
        all_must_be_nonnull(es.drop_last(), ctx) && must_be_nonnull(es.last(), ctx)
    }
}

/// `all_must_be_nonnull` holds exactly when every element passes.
pub proof fn lemma_all_must_be_nonnull(es: Seq<ExprV>, ctx: Seq<ColumnType>)
    ensures
        all_must_be_nonnull(es, ctx) <==> (forall|i: int|
            0 <= i < es.len() ==> must_be_nonnull(#[trigger] es[i], ctx)),
    decreases es.len(),
{
    if es.len() > 0 {
        lemma_all_must_be_nonnull(es.drop_last(), ctx);
        if all_must_be_nonnull(es, ctx) {
            assert forall|i: int| 0 <= i < es.len() implies must_be_nonnull(
                #[trigger] es[i],
                ctx,
            ) by {
                if i < es.len() - 1 {
                    assert(es.drop_last()[i] == es[i]);
                } else {
                    assert(es.last() == es[i]);
                }
            }
        }
        if forall|i: int| 0 <= i < es.len() ==> must_be_nonnull(#[trigger] es[i], ctx) {
            assert forall|i: int| 0 <= i < es.drop_last().len() implies must_be_nonnull(
                #[trigger] es.drop_last()[i],
                ctx,
            ) by {
                assert(es.drop_last()[i] == es[i]);
            }
            assert(must_be_nonnull(es.last(), ctx));
        }
    }
}

impl MirScalarExpr {
    /// The conservative non-NULL check, computed over the tree.
    #[verifier::loop_isolation(false)]
    pub fn check_nonnull(&self, column_types: &Vec<ColumnType>) -> (r: bool)
        requires
            rows_ok(*self),
        ensures
            r == must_be_nonnull(self@, column_types@),
        decreases *self,
    {
        match self {
            MirScalarExpr::Column(i, _) => *i < column_types.len() && !column_types[*i].nullable,
            MirScalarExpr::Literal(lit, _) => match lit {
                Ok(row) => !row.unpack_first().is_null(),
                Err(_) => true,
            },
            MirScalarExpr::CallUnmaterializable(_) => true,
            MirScalarExpr::CallUnary { func, expr } => !func.introduces_nulls() && (
            !func.propagates_nulls() || expr.check_nonnull(column_types)),
            MirScalarExpr::CallBinary { func, expr1, expr2 } => {
                !func.introduces_nulls() && (!func.propagates_nulls() || (expr1.check_nonnull(
                    column_types,
                ) && expr2.check_nonnull(column_types)))
            }
            MirScalarExpr::CallVariadic { func, exprs } => {
                proof {
                    lemma_views_of(exprs@);
                    lemma_all_must_be_nonnull(views_of(exprs@), column_types@);
                    lemma_rows_ok_list(exprs@);
                }
                match func {
                    VariadicFunc::ErrorIfNull => true,
                    VariadicFunc::Coalesce | VariadicFunc::Greatest | VariadicFunc::Least => {
                        let mut i: usize = 0;
                        let ghost es = views_of(exprs@);
                        while i < exprs.len()
                            invariant
                                i <= exprs@.len(),
                                forall|j: int|
                                    0 <= j < i ==> !must_be_nonnull(#[trigger] es[j], column_types@),
                            decreases exprs@.len() - i,
                        {
                            proof {
                                assert(decreases_to!(*exprs => exprs@));
                                assert(decreases_to!(exprs@ => exprs@[i as int]));
                                assert(es[i as int] == exprs@[i as int]@);
                            }
                            if exprs[i].check_nonnull(column_types) {
                                proof {
                                    assert(must_be_nonnull(es[i as int], column_types@));
                                    assert(exists|j: int|
                                        0 <= j < es.len() && must_be_nonnull(
                                            #[trigger] es[j],
                                            column_types@,
                                        ));
                                    assert(self@ matches ExprV::CallVariadic { exprs: zs, .. }
                                        && zs == es);
                                    assert(must_be_nonnull(self@, column_types@));
                                }
                                return true;
                            }
                            i = i + 1;
                        }
                        proof {
                            if exists|j: int|
                                0 <= j < es.len() && must_be_nonnull(#[trigger] es[j], column_types@) {
                                let j = choose|j: int|
                                    0 <= j < es.len() && must_be_nonnull(
                                        #[trigger] es[j],
                                        column_types@,
                                    );
                                assert(!must_be_nonnull(es[j], column_types@));
                            }
                        }
                        false
                    }
                    _ => {
                        let mut i: usize = 0;
                        let ghost es = views_of(exprs@);
                        while i < exprs.len()
                            invariant
                                i <= exprs@.len(),
                                forall|j: int|
                                    0 <= j < i ==> must_be_nonnull(#[trigger] es[j], column_types@),
                            decreases exprs@.len() - i,
                        {
                            proof {
                                assert(decreases_to!(*exprs => exprs@));
                                assert(decreases_to!(exprs@ => exprs@[i as int]));
                                assert(es[i as int] == exprs@[i as int]@);
                            }
                            if !exprs[i].check_nonnull(column_types) {
                                proof {
                                    assert(!must_be_nonnull(es[i as int], column_types@));
                                }
                                return false;
                            }
                            i = i + 1;
                        }
                        true
                    }
                }
            }
            MirScalarExpr::If { cond: _, when_true, when_false } => when_true.check_nonnull(
                column_types,
            ) && when_false.check_nonnull(column_types),
        }
    }
}

} // verus!