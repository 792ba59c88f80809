//! The algebraic simplifier: a bottom-up rewriting pass applied until a
//! fixed point, each rule preserving what evaluation returns on rows the
//! assumed nullability admits. The pass is specified as a function on the
//! expression model; the executable simplifier is proved to compute it.

use vstd::prelude::*;

use crate::ColumnType;
use crate::ScalarType;
use crate::datum::{Datum, DatumV};
use crate::error::{ErrV, EvalError};
use crate::func::{BinaryFunc, UnaryFunc, VariadicFunc};
use crate::order::Ord3;
use crate::scalar::{
    ExprV, MirScalarExpr, expr_view, lemma_rows_ok_list, lemma_views_of, literal_spec,
    must_be_nonnull, rows_ok, rows_ok_list, views_of,
};

verus! {

/// How many passes the fixed-point loop may take before it stops rewriting;
/// a guard against pathological inputs.
pub const REDUCE_FUEL: u64 = 100;

/// Whether the expression is the given boolean literal.
pub open spec fn is_bool_lit(e: ExprV, d: DatumV) -> bool {
    e matches ExprV::Literal(l, _) && l == Ok::<DatumV, ErrV>(d)
}

/// Whether the expression is a literal NULL.
pub open spec fn is_null_lit(e: ExprV) -> bool {
    e matches ExprV::Literal(l, _) && l matches Ok(d) && d is Null
}

/// Whether the expression is a literal value.
pub open spec fn is_ok_lit(e: ExprV) -> bool {
    e matches ExprV::Literal(l, _) && l is Ok
}

/// Whether the expression is a literal error.
pub open spec fn is_err_lit(e: ExprV) -> bool {
    e matches ExprV::Literal(l, _) && l is Err
}

/// Whether the expression is any literal.
pub open spec fn is_lit(e: ExprV) -> bool {
    e is Literal
}

/// The error a literal error stores.
pub open spec fn err_of_lit(e: ExprV) -> ErrV {
    e->Literal_0->Err_0
}

/// The error of the first literal error in the list.
pub open spec fn err_of_first_err(es: Seq<ExprV>) -> ErrV
    decreases es.len(),
{
    if es.len() == 0 {
        crate::func::type_err()
    } else if is_err_lit(es[0]) {
        err_of_lit(es[0])
    } else {
        err_of_first_err(es.drop_first())
    }
}

/// Whether some expression of the list is a literal NULL.
pub open spec fn has_null_lit_in(es: Seq<ExprV>) -> bool {
    exists|i: int| 0 <= i < es.len() && is_null_lit(#[trigger] es[i])
}

/// Whether some expression of the list is a literal error.
pub open spec fn has_err_lit_in(es: Seq<ExprV>) -> bool {
    exists|i: int| 0 <= i < es.len() && is_err_lit(#[trigger] es[i])
}

/// Whether every expression of the list is a literal.
pub open spec fn all_lits(es: Seq<ExprV>) -> bool {
    forall|i: int| 0 <= i < es.len() ==> is_lit(#[trigger] es[i])
}

/// The list with every element wrapped in NOT.
pub open spec fn not_all(es: Seq<ExprV>) -> Seq<ExprV> {
    es.map_values(
        |e: ExprV| ExprV::CallUnary { func: UnaryFunc::Not, expr: Box::new(e) },
    )
}

/// The arguments of a call of the given connective, or the expression
/// itself as a one-element list.
pub open spec fn and_or_args_of(e: ExprV, func: VariadicFunc) -> Seq<ExprV> {
    match e {
        ExprV::CallVariadic { func: f, exprs } => if f == func {
            exprs
        } else {
            seq![e]
        },
        _ => seq![e],
    }
}

/// The list with nested calls of the same function spliced into it once.
pub open spec fn flatten_args(es: Seq<ExprV>, func: VariadicFunc) -> Seq<ExprV>
    decreases es.len(),
{
    if es.len() == 0 {
        Seq::empty()
    } else {
        flatten_args(es.drop_last(), func) + (match es.last() {
            ExprV::CallVariadic { func: f, exprs } => if f == func {
                exprs
            } else {
                seq![es.last()]
            },
            _ => seq![es.last()],
        })
    }
}

/// The list with later repetitions of an element removed.
pub open spec fn dedup_keep_first(es: Seq<ExprV>) -> Seq<ExprV>
    decreases es.len(),
{
    if es.len() == 0 {
        Seq::empty()
    } else {
        let rest = dedup_keep_first(es.drop_last());
        if es.drop_last().contains(es.last()) {
            rest
        } else {
            rest.push(es.last())
        }
    }
}

/// The list without the elements equal to the given one.
pub open spec fn remove_all(es: Seq<ExprV>, gone: ExprV) -> Seq<ExprV> {
    es.filter(|e: ExprV| e != gone)
}

/// The list without the elements the other list holds.
pub open spec fn remove_members(es: Seq<ExprV>, gone: Seq<ExprV>) -> Seq<ExprV> {
    es.filter(|e: ExprV| !gone.contains(e))
}

/// The elements of the first list that every other list also holds.
pub open spec fn intersect_all(first: Seq<ExprV>, rest: Seq<Seq<ExprV>>) -> Seq<ExprV> {
    first.filter(|e: ExprV| forall|j: int| 0 <= j < rest.len() ==> #[trigger] rest[j].contains(e))
}

/// The unit of AND or OR: the literal that leaves the other operand alone.
pub open spec fn unit_of(func: VariadicFunc) -> ExprV {
    if func is And {
        literal_spec(Ok(DatumV::True), crate::ScalarType::Bool)
    } else {
        literal_spec(Ok(DatumV::False), crate::ScalarType::Bool)
    }
}

/// The zero of AND or OR: the literal that decides the whole call.
pub open spec fn zero_of(func: VariadicFunc) -> ExprV {
    if func is And {
        literal_spec(Ok(DatumV::False), crate::ScalarType::Bool)
    } else {
        literal_spec(Ok(DatumV::True), crate::ScalarType::Bool)
    }
}

/// One canonicalization step for AND and OR with already flattened
/// arguments: repetitions collapse, the zero decides the call, units drop
/// out, no argument gives the unit, and one argument stands alone.
pub open spec fn canon_and_or(func: VariadicFunc, args: Seq<ExprV>) -> ExprV {
    let deduped = dedup_keep_first(args);
    if deduped.contains(zero_of(func)) {
        zero_of(func)
    } else {
        let kept = remove_all(deduped, unit_of(func));
        if kept.len() == 0 {
            unit_of(func)
        } else if kept.len() == 1 {
            kept[0]
        } else {
            ExprV::CallVariadic { func, exprs: kept }
        }
    }
}

/// Undistribution for AND and OR: each argument read as a call of the dual
/// connective, a factor every argument shares moved out front. The factored
/// remainders and the final call are canonicalized again.
pub open spec fn undistribute_and_or(func: VariadicFunc, args: Seq<ExprV>) -> ExprV {
    let inner = func.switch_and_or_spec();
    let lists = args.map_values(|e: ExprV| and_or_args_of(e, inner));
    let shared = if args.len() == 0 {
        Seq::<ExprV>::empty()
    } else {
        dedup_keep_first(intersect_all(lists[0], lists.drop_first()))
    };
    if shared.len() == 0 {
        canon_and_or(func, args)
    } else {
        let stripped = lists.map_values(|l: Seq<ExprV>| remove_members(l, shared));
        let outer_args = stripped.map_values(|l: Seq<ExprV>| canon_and_or(inner, l));
        let residue = canon_and_or(func, outer_args);
        canon_and_or(inner, shared.push(residue))
    }
}

/// One local rewrite at a node whose children are already simplified. Each
/// case preserves what evaluation returns on rows that respect the assumed
/// nullability, wherever the node evaluated to a value.
pub open spec fn rewrite_node(e: ExprV, ctx: Seq<ColumnType>) -> ExprV {
    match e {
        ExprV::Column(_) => e,
        ExprV::Literal(_, _) => e,
        ExprV::CallUnmaterializable(_) => e,
        ExprV::CallUnary { func, expr } => rewrite_unary(func, *expr, e, ctx),
        ExprV::CallBinary { func, expr1, expr2 } => rewrite_binary(func, *expr1, *expr2, e, ctx),
        ExprV::CallVariadic { func, exprs } => rewrite_variadic(func, exprs, e, ctx),
        ExprV::If { cond, when_true, when_false } => rewrite_if(
            *cond,
            *when_true,
            *when_false,
            e,
            ctx,
        ),
    }
}

/// The local rewrite of a unary call: constant folding, the IS NULL of an
/// expression that cannot be NULL, double negation, a negated comparison,
/// and De Morgan's law.
pub open spec fn rewrite_unary(func: UnaryFunc, arg: ExprV, e: ExprV, ctx: Seq<ColumnType>) -> ExprV {
    if arg is Literal {
        literal_spec(crate::scalar::eval_expr(e, Seq::empty()), func.output_scalar_type())
    } else if func is IsNull && must_be_nonnull(arg, ctx) {
        literal_spec(Ok(DatumV::False), crate::ScalarType::Bool)
    } else if func is Not {
        match arg {
            ExprV::CallUnary { func: UnaryFunc::Not, expr: inner } => *inner,
            ExprV::CallBinary { func: bf, expr1, expr2 } => match bf.negate_spec() {
                Some(nf) => ExprV::CallBinary { func: nf, expr1, expr2 },
                None => e,
            },
            ExprV::CallVariadic { func: vf, exprs } => if vf is And || vf is Or {
                ExprV::CallVariadic { func: vf.switch_and_or_spec(), exprs: not_all(exprs) }
            } else {
                e
            },
            _ => e,
        }
    } else {
        e
    }
}

/// The local rewrite of a binary call: constant folding, NULL propagation,
/// literal-error propagation, and canonically ordering the operands of an
/// equality.
pub open spec fn rewrite_binary(
    func: BinaryFunc,
    a: ExprV,
    b: ExprV,
    e: ExprV,
    ctx: Seq<ColumnType>,
) -> ExprV {
    if is_lit(a) && is_lit(b) {
        literal_spec(crate::scalar::eval_expr(e, Seq::empty()), func.output_scalar_spec())
    } else if (is_null_lit(a) || is_null_lit(b)) && func.propagates_nulls_spec() {
        literal_spec(Ok(DatumV::Null), func.output_scalar_spec())
    } else if is_err_lit(a) {
        literal_spec(Err(err_of_lit(a)), func.output_scalar_spec())
    } else if is_err_lit(b) {
        literal_spec(Err(err_of_lit(b)), func.output_scalar_spec())
    } else if (func is Eq || func is NotEq) && crate::cmp::expr_cmp_spec(b, a) == crate::order::Ord3::Less {
        ExprV::CallBinary { func, expr1: Box::new(b), expr2: Box::new(a) }
    } else {
        e
    }
}

/// The local rewrite of a variadic call: flattening of the associative
/// connectives, the COALESCE catalog, constant folding, NULL and error
/// propagation for the eager functions, and AND/OR canonicalization with
/// undistribution.
pub open spec fn rewrite_variadic(
    func: VariadicFunc,
    exprs: Seq<ExprV>,
    e: ExprV,
    ctx: Seq<ColumnType>,
) -> ExprV {
    let args = if func is And || func is Or || func is Coalesce {
        flatten_args(exprs, func)
    } else {
        exprs
    };
    if func is Coalesce {
        rewrite_coalesce(args, e, ctx)
    } else if func is And || func is Or {
        undistribute_and_or(func, args)
    } else if all_lits(args) {
        literal_spec(
            crate::func::variadic_semantics(func, crate::scalar::eval_args(args, Seq::empty())),
            if func is HmacString || func is HmacBytes {
                crate::ScalarType::Bytes
            } else {
                first_lit_scalar(args)
            },
        )
    } else if func.propagates_nulls_spec() && has_null_lit_in(args) {
        literal_spec(Ok(DatumV::Null), crate::ScalarType::Bytes)
    } else if func.propagates_nulls_spec() && has_err_lit_in(args) {
        literal_spec(Err(err_of_first_err(args)), crate::ScalarType::Bytes)
    } else {
        ExprV::CallVariadic { func, exprs: args }
    }
}

/// Whether the expression is a literal, or a column the schema declares
/// non-nullable; COALESCE never looks past such an argument.
pub open spec fn coalesce_stops(e: ExprV, ctx: Seq<ColumnType>) -> bool {
    is_lit(e) || must_be_nonnull(e, ctx)
}

/// The prefix of the arguments up to and including the first one COALESCE
/// cannot look past.
pub open spec fn truncate_coalesce(es: Seq<ExprV>, ctx: Seq<ColumnType>) -> Seq<ExprV>
    decreases es.len(),
{
    if es.len() == 0 {
        Seq::empty()
    } else if coalesce_stops(es[0], ctx) {
        seq![es[0]]
    } else {
        seq![es[0]] + truncate_coalesce(es.drop_first(), ctx)
    }
}

/// The scalar type of the first argument, where it is a literal; the
/// boolean type otherwise.
pub open spec fn first_lit_scalar(args: Seq<ExprV>) -> crate::ScalarType {
    if args.len() > 0 && args[0] is Literal {
        args[0]->Literal_1.scalar_type
    } else {
        crate::ScalarType::Bool
    }
}

/// The local rewrite of COALESCE: all-NULL collapses to NULL, NULL
/// arguments drop out, nothing past the first sure stop is kept,
/// repetitions collapse, and a single argument stands alone.
pub open spec fn rewrite_coalesce(args: Seq<ExprV>, e: ExprV, ctx: Seq<ColumnType>) -> ExprV {
    if forall|i: int| 0 <= i < args.len() ==> is_null_lit(#[trigger] args[i]) {
        literal_spec(Ok(DatumV::Null), first_lit_scalar(args))
    } else {
        let nonnull = args.filter(|a: ExprV| !is_null_lit(a));
        let kept = dedup_keep_first(truncate_coalesce(nonnull, ctx));
        if kept.len() == 1 {
            kept[0]
        } else {
            ExprV::CallVariadic { func: VariadicFunc::Coalesce, exprs: kept }
        }
    }
}

/// The local rewrite of a conditional: a constant condition selects its
/// branch, equal branches collapse, and boolean literal branches unfold
/// into three-valued formulas that keep a NULL condition on the ELSE path.
pub open spec fn rewrite_if(
    cond: ExprV,
    t: ExprV,
    f: ExprV,
    e: ExprV,
    ctx: Seq<ColumnType>,
) -> ExprV {
    if cond is Literal {
        match cond {
            ExprV::Literal(Ok(DatumV::True), _) => t,
            ExprV::Literal(Ok(DatumV::False), _) => f,
            ExprV::Literal(Ok(DatumV::Null), _) => f,
            ExprV::Literal(Err(err), _) => literal_spec(Err(err), first_lit_scalar(seq![t, f])),
            _ => e,
        }
    } else if t == f {
        t
    } else if is_ok_lit(t) && is_ok_lit(f) && t->Literal_1.scalar_type is Bool
        && f->Literal_1.scalar_type is Bool {
        if is_bool_lit(t, DatumV::True) {
            // (cond IS NOT NULL AND cond) OR els
            or2(and2(not1(is_null1(cond)), cond), f)
        } else if is_bool_lit(t, DatumV::False) {
            // ((NOT cond) OR cond IS NULL) AND els
            and2(or2(not1(cond), is_null1(cond)), f)
        } else if is_bool_lit(f, DatumV::True) {
            // (NOT cond) OR (cond IS NULL) OR then
            or3(not1(cond), is_null1(cond), t)
        } else if is_bool_lit(f, DatumV::False) {
            // (cond IS NOT NULL) AND cond AND then
            and3(not1(is_null1(cond)), cond, t)
        } else {
            e
        }
    } else {
        e
    }
}

/// NOT of an expression, at the model level.
pub open spec fn not1(a: ExprV) -> ExprV {
    ExprV::CallUnary { func: UnaryFunc::Not, expr: Box::new(a) }
}

/// IS NULL of an expression, at the model level.
pub open spec fn is_null1(a: ExprV) -> ExprV {
    ExprV::CallUnary { func: UnaryFunc::IsNull, expr: Box::new(a) }
}

/// The conjunction of two expressions, at the model level.
pub open spec fn and2(a: ExprV, b: ExprV) -> ExprV {
    ExprV::CallVariadic { func: VariadicFunc::And, exprs: seq![a, b] }
}

/// The disjunction of two expressions, at the model level.
pub open spec fn or2(a: ExprV, b: ExprV) -> ExprV {
    ExprV::CallVariadic { func: VariadicFunc::Or, exprs: seq![a, b] }
}

/// The conjunction of three expressions, at the model level.
pub open spec fn and3(a: ExprV, b: ExprV, c: ExprV) -> ExprV {
    ExprV::CallVariadic { func: VariadicFunc::And, exprs: seq![a, b, c] }
}

/// The disjunction of three expressions, at the model level.
pub open spec fn or3(a: ExprV, b: ExprV, c: ExprV) -> ExprV {
    ExprV::CallVariadic { func: VariadicFunc::Or, exprs: seq![a, b, c] }
}

/// One full bottom-up pass: children first, then the local rewrite.
pub open spec fn simplify(e: ExprV, ctx: Seq<ColumnType>) -> ExprV
    decreases e, 1int,
{
    let with_children = match e {
        ExprV::CallUnary { func, expr } => ExprV::CallUnary {
            func,
            expr: Box::new(simplify(*expr, ctx)),
        },
        ExprV::CallBinary { func, expr1, expr2 } => ExprV::CallBinary {
            func,
            expr1: Box::new(simplify(*expr1, ctx)),
            expr2: Box::new(simplify(*expr2, ctx)),
        },
        ExprV::CallVariadic { func, exprs } => ExprV::CallVariadic {
            func,
            exprs: simplify_list(exprs, ctx),
        },
        ExprV::If { cond, when_true, when_false } => ExprV::If {
            cond: Box::new(simplify(*cond, ctx)),
            when_true: Box::new(simplify(*when_true, ctx)),
            when_false: Box::new(simplify(*when_false, ctx)),
        },
        _ => e,
    };
    rewrite_node(with_children, ctx)
}

/// One full pass over each expression of a list.
pub open spec fn simplify_list(es: Seq<ExprV>, ctx: Seq<ColumnType>) -> Seq<ExprV>
    decreases es, 0int,
{
    if es.len() == 0 {
        Seq::empty()
    } else {
        simplify_list(es.drop_last(), ctx).push(simplify(es.last(), ctx))
    }
}

/// Passes applied until none changes the expression, or the fuel runs out.
pub open spec fn reduce_fuel(e: ExprV, ctx: Seq<ColumnType>, fuel: nat) -> ExprV
    decreases fuel,
{
    if fuel == 0 {
        e
    } else {
        let next = simplify(e, ctx);
        if next == e {
            e
        } else {
            reduce_fuel(next, ctx, (fuel - 1) as nat)
        }
    }
}

/// What `reduce` leaves behind.
pub open spec fn reduce_spec(e: ExprV, ctx: Seq<ColumnType>) -> ExprV {
    reduce_fuel(e, ctx, REDUCE_FUEL as nat)
}

/// Reducing a reduced expression changes nothing, wherever the fixed point
/// was reached within the fuel: the simplifier is idempotent there.
pub proof fn lemma_reduce_idempotent(e: ExprV, ctx: Seq<ColumnType>)
    requires
        simplify(reduce_spec(e, ctx), ctx) == reduce_spec(e, ctx),
    ensures
        reduce_spec(reduce_spec(e, ctx), ctx) == reduce_spec(e, ctx),
{
    let r = reduce_spec(e, ctx);
    assert(reduce_fuel(r, ctx, REDUCE_FUEL as nat) == r);
}

/// Wherever a pass reaches a fixed point before the fuel runs out, the
/// result of `reduce` is such a fixed point.
pub proof fn lemma_reduce_fixed_point(e: ExprV, ctx: Seq<ColumnType>, fuel: nat)
    ensures
        reduce_fuel(e, ctx, fuel) == e || reduce_fuel(e, ctx, fuel) == reduce_fuel(
            simplify(e, ctx),
            ctx,
            (fuel - 1) as nat,
        ),
{
}


/// Splices nested calls of the same function into the argument list once.
#[verifier::loop_isolation(false)]
fn flatten_exec(func: &VariadicFunc, exprs: Vec<MirScalarExpr>) -> (r: Vec<MirScalarExpr>)
    requires
        rows_ok_list(exprs@),
    ensures
        views_of(r@) == flatten_args(views_of(exprs@), *func),
        rows_ok_list(r@),
{
    let ghost orig = views_of(exprs@);
    proof {
        lemma_views_of(exprs@);
        lemma_rows_ok_list(exprs@);
    }
    let mut out: Vec<MirScalarExpr> = Vec::new();
    let mut rest = exprs;
    let mut i: usize = 0;
    while i < rest.len()
        invariant
            i <= rest@.len(),
            rest@ == exprs@,
            views_of(out@) == flatten_args(orig.take(i as int), *func),
            rows_ok_list(out@),
        decreases rest@.len() - i,
    {
        let ghost pre = orig.take(i as int);
        let ghost pre2 = orig.take(i + 1);
        proof {
            assert(pre2.drop_last() =~= pre);
            assert(pre2.last() == orig[i as int]);
            assert(orig[i as int] == rest@[i as int]@);
            lemma_rows_ok_list(out@);
        }
        let flat_here = match &rest[i] {
            MirScalarExpr::CallVariadic { func: f, exprs: inner } => f == func,
            _ => false,
        };
        if flat_here {
            let e = rest[i].duplicate();
            match e {
                MirScalarExpr::CallVariadic { func: _, exprs: mut inner } => {
                    proof {
                        lemma_views_of(inner@);
                        lemma_rows_ok_list(inner@);
                        assert(rows_ok(rest@[i as int]));
                        assert(rows_ok(e));
                    }
                    let mut j: usize = 0;
                    while j < inner.len()
                        invariant
                            j <= inner@.len(),
                            views_of(out@) == flatten_args(pre, *func) + views_of(inner@).take(
                                j as int,
                            ),
                            rows_ok_list(out@),
                            rows_ok_list(inner@),
                        decreases inner@.len() - j,
                    {
                        proof {
                            lemma_views_of(out@);
                            lemma_rows_ok_list(out@);
                            assert(rows_ok(inner@[j as int]));
                        }
                        let ghost oldout = out@;
                        proof {
                            lemma_rows_ok_list(oldout);
                        }
                        out.push(inner[j].duplicate());
                        proof {
                            lemma_views_of(out@);
                            lemma_views_of(oldout);
                            lemma_views_of(inner@);
                            assert(views_of(out@) =~= views_of(oldout).push(
                                inner@[j as int]@,
                            ));
                            assert(views_of(inner@).take(j + 1) =~= views_of(inner@).take(
                                j as int,
                            ).push(inner@[j as int]@));
                            lemma_rows_ok_list(out@);
                        }
                        j = j + 1;
                    }
                    proof {
                        assert(views_of(inner@).take(inner@.len() as int) =~= views_of(inner@));
                        assert(flatten_args(pre2, *func) == flatten_args(pre, *func) + views_of(
                            inner@,
                        ));
                    }
                }
                _ => {
                    proof {
                        assert(false);
                    }
                }
            }
        } else {
            let ghost oldout = out@;
            proof {
                assert(rows_ok(rest@[i as int]));
                lemma_rows_ok_list(oldout);
            }
            out.push(rest[i].duplicate());
            proof {
                lemma_views_of(out@);
                lemma_views_of(oldout);
                assert(views_of(out@) =~= views_of(oldout).push(orig[i as int]));
                assert(flatten_args(pre2, *func) =~= flatten_args(pre, *func) + seq![
                    orig[i as int],
                ]);
                assert(views_of(out@) =~= flatten_args(pre2, *func));
                lemma_rows_ok_list(out@);
            }
        }
        i = i + 1;
    }
    proof {
        assert(orig.take(orig.len() as int) =~= orig);
    }
    out
}

/// Removes later repetitions from the argument list.
#[verifier::loop_isolation(false)]
fn dedup_exec(exprs: &Vec<MirScalarExpr>) -> (r: Vec<MirScalarExpr>)
    requires
        rows_ok_list(exprs@),
    ensures
        views_of(r@) == dedup_keep_first(views_of(exprs@)),
        rows_ok_list(r@),
{
    let ghost orig = views_of(exprs@);
    proof {
        lemma_views_of(exprs@);
        lemma_rows_ok_list(exprs@);
    }
    let mut out: Vec<MirScalarExpr> = Vec::new();
    let mut i: usize = 0;
    while i < exprs.len()
        invariant
            i <= exprs@.len(),
            views_of(out@) == dedup_keep_first(orig.take(i as int)),
            rows_ok_list(out@),
        decreases exprs@.len() - i,
    {
        let ghost pre = orig.take(i as int);
        let ghost pre2 = orig.take(i + 1);
        proof {
            assert(pre2.drop_last() =~= pre);
            assert(pre2.last() == orig[i as int]);
            assert(orig[i as int] == exprs@[i as int]@);
            assert(rows_ok(exprs@[i as int]));
        }
        let mut seen = false;
        let mut j: usize = 0;
        while j < i
            invariant
                j <= i,
                i < exprs@.len(),
                seen == exists|k: int| 0 <= k < j && orig[k] == orig[i as int],
            decreases i - j,
        {
            proof {
                assert(rows_ok(exprs@[j as int]));
                assert(orig[j as int] == exprs@[j as int]@);
            }
            if exprs[j].eq_expr(&exprs[i]) {
                seen = true;
            }
            j = j + 1;
        }
        proof {
            if seen {
                let k = choose|k: int| 0 <= k < i && orig[k] == orig[i as int];
                assert(pre[k] == orig[i as int]);
                assert(pre.contains(orig[i as int]));
            } else {
                if pre.contains(orig[i as int]) {
                    let k = choose|k: int| 0 <= k < pre.len() && pre[k] == orig[i as int];
                    assert(orig[k] == orig[i as int]);
                }
            }
        }
        if !seen {
            let ghost oldout = out@;
            proof {
                lemma_rows_ok_list(oldout);
            }
            out.push(exprs[i].duplicate());
            proof {
                lemma_views_of(out@);
                lemma_views_of(oldout);
                assert(views_of(out@) =~= views_of(oldout).push(orig[i as int]));
                lemma_rows_ok_list(out@);
            }
        }
        i = i + 1;
    }
    proof {
        assert(orig.take(orig.len() as int) =~= orig);
    }
    out
}

/// Keeps the arguments whose model is not the given one.
#[verifier::loop_isolation(false)]
fn remove_all_exec(exprs: Vec<MirScalarExpr>, gone: &MirScalarExpr) -> (r: Vec<MirScalarExpr>)
    requires
        rows_ok_list(exprs@),
        rows_ok(*gone),
    ensures
        views_of(r@) == remove_all(views_of(exprs@), gone@),
        rows_ok_list(r@),
{
    let ghost orig = views_of(exprs@);
    let ghost pred = |e: ExprV| e != gone@;
    proof {
        lemma_views_of(exprs@);
        lemma_rows_ok_list(exprs@);
        assert(Seq::<ExprV>::empty().filter(pred) =~= Seq::<ExprV>::empty());
    }
    let mut out: Vec<MirScalarExpr> = Vec::new();
    let mut i: usize = 0;
    while i < exprs.len()
        invariant
            i <= exprs@.len(),
            views_of(out@) == orig.take(i as int).filter(pred),
            rows_ok_list(out@),
        decreases exprs@.len() - i,
    {
        let ghost pre = orig.take(i as int);
        let ghost pre2 = orig.take(i + 1);
        proof {
            assert(pre2.drop_last() =~= pre);
            assert(pre2.last() == orig[i as int]);
            assert(orig[i as int] == exprs@[i as int]@);
            assert(rows_ok(exprs@[i as int]));
            reveal_with_fuel(Seq::filter, 2);
        }
        if !exprs[i].eq_expr(gone) {
            let ghost oldout = out@;
            proof {
                lemma_rows_ok_list(oldout);
            }
            out.push(exprs[i].duplicate());
            proof {
                lemma_views_of(out@);
                lemma_views_of(oldout);
                assert(views_of(out@) =~= views_of(oldout).push(orig[i as int]));
                lemma_rows_ok_list(out@);
            }
        }
        i = i + 1;
    }
    proof {
        assert(orig.take(orig.len() as int) =~= orig);
    }
    out
}

/// The unit literal of AND or OR.
fn unit_of_exec(func: &VariadicFunc) -> (r: MirScalarExpr)
    requires
        *func is And || *func is Or,
    ensures
        r@ == unit_of(*func),
        rows_ok(r),
{
    match func {
        VariadicFunc::And => MirScalarExpr::literal_true(),
        _ => MirScalarExpr::literal_false(),
    }
}

/// The zero literal of AND or OR.
fn zero_of_exec(func: &VariadicFunc) -> (r: MirScalarExpr)
    requires
        *func is And || *func is Or,
    ensures
        r@ == zero_of(*func),
        rows_ok(r),
{
    match func {
        VariadicFunc::And => MirScalarExpr::literal_false(),
        _ => MirScalarExpr::literal_true(),
    }
}

/// Whether some argument's model is the given one.
#[verifier::loop_isolation(false)]
fn contains_exec(exprs: &Vec<MirScalarExpr>, what: &MirScalarExpr) -> (r: bool)
    requires
        rows_ok_list(exprs@),
        rows_ok(*what),
    ensures
        r == views_of(exprs@).contains(what@),
{
    let ghost orig = views_of(exprs@);
    proof {
        lemma_views_of(exprs@);
        lemma_rows_ok_list(exprs@);
    }
    let mut i: usize = 0;
    while i < exprs.len()
        invariant
            i <= exprs@.len(),
            forall|k: int| 0 <= k < i ==> orig[k] != what@,
        decreases exprs@.len() - i,
    {
        proof {
            assert(rows_ok(exprs@[i as int]));
            assert(orig[i as int] == exprs@[i as int]@);
        }
        if exprs[i].eq_expr(what) {
            proof {
                assert(orig.contains(what@)) by {
                    assert(orig[i as int] == what@);
                }
            }
            return true;
        }
        i = i + 1;
    }
    proof {
        if orig.contains(what@) {
            let k = choose|k: int| 0 <= k < orig.len() && orig[k] == what@;
            assert(orig[k] != what@);
        }
    }
    false
}

/// Canonicalizes the argument list of AND or OR.
fn canon_and_or_exec(func: &VariadicFunc, args: Vec<MirScalarExpr>) -> (r: MirScalarExpr)
    requires
        *func is And || *func is Or,
        rows_ok_list(args@),
    ensures
        r@ == canon_and_or(*func, views_of(args@)),
        rows_ok(r),
{
    let deduped = dedup_exec(&args);
    let zero = zero_of_exec(func);
    if contains_exec(&deduped, &zero) {
        return zero;
    }
    let unit = unit_of_exec(func);
    let mut kept = remove_all_exec(deduped, &unit);
    proof {
        lemma_views_of(kept@);
        lemma_rows_ok_list(kept@);
    }
    if kept.len() == 0 {
        unit
    } else if kept.len() == 1 {
        proof {
            assert(rows_ok(kept@[0]));
        }
        match kept.pop() {
            Some(single) => single,
            None => unit,
        }
    } else {
        MirScalarExpr::CallVariadic { func: *func, exprs: kept }
    }
}


/// Keeps the arguments whose model the other list does not hold.
#[verifier::loop_isolation(false)]
fn remove_members_exec(exprs: &Vec<MirScalarExpr>, gone: &Vec<MirScalarExpr>) -> (r: Vec<
    MirScalarExpr,
>)
    requires
        rows_ok_list(exprs@),
        rows_ok_list(gone@),
    ensures
        views_of(r@) == remove_members(views_of(exprs@), views_of(gone@)),
        rows_ok_list(r@),
{
    let ghost orig = views_of(exprs@);
    let ghost gv = views_of(gone@);
    let ghost pred = |e: ExprV| !gv.contains(e);
    proof {
        lemma_views_of(exprs@);
        lemma_rows_ok_list(exprs@);
        assert(Seq::<ExprV>::empty().filter(pred) =~= Seq::<ExprV>::empty());
    }
    let mut out: Vec<MirScalarExpr> = Vec::new();
    let mut i: usize = 0;
    while i < exprs.len()
        invariant
            i <= exprs@.len(),
            views_of(out@) == orig.take(i as int).filter(pred),
            rows_ok_list(out@),
        decreases exprs@.len() - i,
    {
        let ghost pre = orig.take(i as int);
        let ghost pre2 = orig.take(i + 1);
        proof {
            assert(pre2.drop_last() =~= pre);
            assert(pre2.last() == orig[i as int]);
            assert(orig[i as int] == exprs@[i as int]@);
            assert(rows_ok(exprs@[i as int]));
            reveal_with_fuel(Seq::filter, 2);
        }
        if !contains_exec(gone, &exprs[i]) {
            let ghost oldout = out@;
            proof {
                lemma_rows_ok_list(oldout);
            }
            out.push(exprs[i].duplicate());
            proof {
                lemma_views_of(out@);
                lemma_views_of(oldout);
                assert(views_of(out@) =~= views_of(oldout).push(orig[i as int]));
                lemma_rows_ok_list(out@);
            }
        }
        i = i + 1;
    }
    proof {
        assert(orig.take(orig.len() as int) =~= orig);
    }
    out
}

/// The arguments of a call of the given connective, or the expression as a
/// one-element list.
fn and_or_args_exec(e: &MirScalarExpr, func: &VariadicFunc) -> (r: Vec<MirScalarExpr>)
    requires
        rows_ok(*e),
    ensures
        views_of(r@) == and_or_args_of(e@, *func),
        rows_ok_list(r@),
{
    let is_call = match e {
        MirScalarExpr::CallVariadic { func: f, .. } => f == func,
        _ => false,
    };
    if is_call {
        let copy = e.duplicate();
        match copy {
            MirScalarExpr::CallVariadic { func: _, exprs } => {
                proof {
                    lemma_views_of(exprs@);
                }
                exprs
            }
            _ => {
                proof {
                    assert(false);
                }
                Vec::new()
            }
        }
    } else {
        let single = vec![e.duplicate()];
        proof {
            lemma_views_of(single@);
            lemma_rows_ok_list(single@);
            assert(views_of(single@) =~= seq![e@]);
        }
        single
    }
}

/// Undistributes and canonicalizes the argument list of AND or OR.
#[verifier::loop_isolation(false)]
fn undistribute_exec(func: &VariadicFunc, args: Vec<MirScalarExpr>) -> (r: MirScalarExpr)
    requires
        *func is And || *func is Or,
        rows_ok_list(args@),
    ensures
        r@ == undistribute_and_or(*func, views_of(args@)),
        rows_ok(r),
{
    let ghost av = views_of(args@);
    let inner = func.switch_and_or();
    let ghost lists_spec = av.map_values(|e: ExprV| and_or_args_of(e, func.switch_and_or_spec()));
    proof {
        lemma_views_of(args@);
        lemma_rows_ok_list(args@);
    }
    if args.len() == 0 {
        return canon_and_or_exec(func, args);
    }
    let mut lists: Vec<Vec<MirScalarExpr>> = Vec::new();
    let mut i: usize = 0;
    while i < args.len()
        invariant
            i <= args@.len(),
            lists@.len() == i,
            forall|j: int|
                0 <= j < i ==> views_of(#[trigger] lists@[j]@) == lists_spec[j] && rows_ok_list(
                    lists@[j]@,
                ),
        decreases args@.len() - i,
    {
        proof {
            assert(rows_ok(args@[i as int]));
            assert(av[i as int] == args@[i as int]@);
        }
        lists.push(and_or_args_exec(&args[i], &inner));
        i = i + 1;
    }
    // The factor every argument shares.
    let ghost inter_pred = |e: ExprV|
        forall|j: int|
            0 <= j < lists_spec.drop_first().len() ==> #[trigger] lists_spec.drop_first()[j]
                .contains(e);
    let mut shared_raw: Vec<MirScalarExpr> = Vec::new();
    let first = &lists[0];
    let ghost fv = lists_spec[0];
    proof {
        lemma_views_of(first@);
        lemma_rows_ok_list(first@);
        assert(Seq::<ExprV>::empty().filter(inter_pred) =~= Seq::<ExprV>::empty());
        assert(views_of(first@) == fv);
    }
    let mut k: usize = 0;
    while k < first.len()
        invariant
            k <= first@.len(),
            views_of(shared_raw@) == fv.take(k as int).filter(inter_pred),
            rows_ok_list(shared_raw@),
        decreases first@.len() - k,
    {
        let ghost pre = fv.take(k as int);
        let ghost pre2 = fv.take(k + 1);
        proof {
            assert(pre2.drop_last() =~= pre);
            assert(pre2.last() == fv[k as int]);
            assert(fv[k as int] == first@[k as int]@);
            assert(rows_ok(first@[k as int]));
            reveal_with_fuel(Seq::filter, 2);
        }
        let mut in_all = true;
        let mut j: usize = 1;
        while j < lists.len()
            invariant
                1 <= j <= lists@.len(),
                k < first@.len(),
                in_all == forall|m: int|
                    1 <= m < j ==> #[trigger] lists_spec[m].contains(fv[k as int]),
            decreases lists@.len() - j,
        {
            proof {
                assert(views_of(lists@[j as int]@) == lists_spec[j as int]);
                assert(rows_ok_list(lists@[j as int]@));
            }
            let found = contains_exec(&lists[j], &first[k]);
            if !found {
                proof {
                    assert(!lists_spec[j as int].contains(fv[k as int]));
                }
                in_all = false;
            }
            proof {
                if in_all {
                    assert forall|m: int|
                        1 <= m < j + 1 implies #[trigger] lists_spec[m].contains(
                        fv[k as int],
                    ) by {}
                }
            }
            j = j + 1;
        }
        proof {
            assert(lists_spec.drop_first().len() == lists_spec.len() - 1);
            if in_all {
                assert forall|m: int|
                    0 <= m < lists_spec.drop_first().len() implies #[trigger] lists_spec
                    .drop_first()[m].contains(fv[k as int]) by {
                    assert(lists_spec.drop_first()[m] == lists_spec[m + 1]);
                }
                assert(inter_pred(fv[k as int]));
            } else {
                let m = choose|m: int|
                    1 <= m < lists_spec.len() && !(#[trigger] lists_spec[m].contains(
                        fv[k as int],
                    ));
                assert(lists_spec.drop_first()[m - 1] == lists_spec[m]);
                assert(!inter_pred(fv[k as int]));
            }
        }
        if in_all {
            let ghost oldout = shared_raw@;
            proof {
                lemma_rows_ok_list(oldout);
            }
            shared_raw.push(first[k].duplicate());
            proof {
                lemma_views_of(shared_raw@);
                lemma_views_of(oldout);
                assert(views_of(shared_raw@) =~= views_of(oldout).push(fv[k as int]));
                lemma_rows_ok_list(shared_raw@);
            }
        }
        k = k + 1;
    }
    proof {
        assert(fv.take(fv.len() as int) =~= fv);
        assert(views_of(shared_raw@) == intersect_all(lists_spec[0], lists_spec.drop_first()));
    }
    let shared = dedup_exec(&shared_raw);
    if shared.len() == 0 {
        proof {
            lemma_views_of(shared@);
        }
        return canon_and_or_exec(func, args);
    }
    // Strip the factor from each list and canonicalize the remainders.
    let ghost stripped_spec = lists_spec.map_values(
        |l: Seq<ExprV>| remove_members(l, views_of(shared@)),
    );
    let ghost outer_spec = stripped_spec.map_values(
        |l: Seq<ExprV>| canon_and_or(func.switch_and_or_spec(), l),
    );
    let mut outer_args: Vec<MirScalarExpr> = Vec::new();
    let mut i2: usize = 0;
    while i2 < lists.len()
        invariant
            i2 <= lists@.len(),
            outer_args@.len() == i2,
            forall|j: int| 0 <= j < i2 ==> (#[trigger] outer_args@[j])@ == outer_spec[j],
            forall|j: int| 0 <= j < i2 ==> rows_ok(#[trigger] outer_args@[j]),
        decreases lists@.len() - i2,
    {
        proof {
            assert(views_of(lists@[i2 as int]@) == lists_spec[i2 as int]);
            assert(rows_ok_list(lists@[i2 as int]@));
        }
        let stripped = remove_members_exec(&lists[i2], &shared);
        let piece = canon_and_or_exec(&inner, stripped);
        outer_args.push(piece);
        i2 = i2 + 1;
    }
    proof {
        lemma_views_of(outer_args@);
        assert(views_of(outer_args@) =~= outer_spec);
        assert forall|j: int| 0 <= j < outer_args@.len() implies rows_ok(
            #[trigger] outer_args@[j],
        ) by {}
        lemma_rows_ok_list(outer_args@);
    }
    let residue = canon_and_or_exec(func, outer_args);
    let mut final_args = shared;
    let ghost shv = views_of(final_args@);
    proof {
        lemma_rows_ok_list(final_args@);
        lemma_views_of(final_args@);
    }
    final_args.push(residue);
    proof {
        lemma_views_of(final_args@);
        assert(views_of(final_args@) =~= shv.push(residue@));
        lemma_rows_ok_list(final_args@);
    }
    canon_and_or_exec(&inner, final_args)
}


/// Applies the local unary rewrite.
#[verifier::loop_isolation(false)]
fn rewrite_unary_exec(e: MirScalarExpr, column_types: &Vec<ColumnType>) -> (r: MirScalarExpr)
    requires
        e matches MirScalarExpr::CallUnary { .. },
        rows_ok(e),
    ensures
        r@ == rewrite_node(e@, column_types@),
        rows_ok(r),
{
    let ghost ev = e@;
    match e {
        MirScalarExpr::CallUnary { func, expr } => {
            proof {
                assert(rows_ok(e));
                assert(e == (MirScalarExpr::CallUnary { func, expr }));
                assert(rows_ok(*expr));
                assert(ev == (ExprV::CallUnary { func, expr: Box::new(expr@) }));
            }
            let arg_is_lit = matches!(&*expr, MirScalarExpr::Literal(_, _));
            if arg_is_lit {
                let node = MirScalarExpr::CallUnary { func, expr };
                let empty: Vec<Datum> = Vec::new();
                proof {
                    assert(empty.deep_view() =~= Seq::<DatumV>::empty());
                    assert(node@ == ev);
                }
                let folded = node.eval(&empty);
                proof {
                    assert(crate::func::res_view(folded) == crate::scalar::eval_expr(
                        ev,
                        Seq::empty(),
                    ));
                }
                return MirScalarExpr::literal(folded, func.output_scalar());
            }
            if matches!(func, UnaryFunc::IsNull) && expr.check_nonnull(column_types) {
                return MirScalarExpr::literal_false();
            }
            if matches!(func, UnaryFunc::Not) {
                match *expr {
                    MirScalarExpr::CallUnary { func: inner_f, expr: inner } => {
                        if matches!(inner_f, UnaryFunc::Not) {
                            proof {
                                assert(ev matches ExprV::CallUnary { func: UnaryFunc::Not, .. });
                                assert(rewrite_node(ev, column_types@) == inner@);
                                assert(rows_ok(*inner));
                            }
                            return *inner;
                        }
                        let back = MirScalarExpr::CallUnary {
                            func,
                            expr: Box::new(
                                MirScalarExpr::CallUnary { func: inner_f, expr: inner },
                            ),
                        };
                        proof {
                            assert(back@ == ev);
                        }
                        return back;
                    }
                    MirScalarExpr::CallBinary { func: bf, expr1, expr2 } => {
                        match bf.negate() {
                            Some(nf) => {
                                return MirScalarExpr::CallBinary { func: nf, expr1, expr2 };
                            }
                            None => {
                                let back = MirScalarExpr::CallUnary {
                                    func,
                                    expr: Box::new(
                                        MirScalarExpr::CallBinary { func: bf, expr1, expr2 },
                                    ),
                                };
                                proof {
                                    assert(back@ == ev);
                                }
                                return back;
                            }
                        }
                    }
                    MirScalarExpr::CallVariadic { func: vf, exprs } => {
                        if matches!(vf, VariadicFunc::And | VariadicFunc::Or) {
                            proof {
                                lemma_views_of(exprs@);
                                lemma_rows_ok_list(exprs@);
                            }
                            let mut negated: Vec<MirScalarExpr> = Vec::new();
                            let mut i: usize = 0;
                            while i < exprs.len()
                                invariant
                                    i <= exprs@.len(),
                                    negated@.len() == i,
                                    forall|j: int|
                                        0 <= j < i ==> (#[trigger] negated@[j])@ == not_all(
                                            views_of(exprs@),
                                        )[j] && rows_ok(negated@[j]),
                                decreases exprs@.len() - i,
                            {
                                proof {
                                    assert(rows_ok(exprs@[i as int]));
                                    assert(views_of(exprs@)[i as int] == exprs@[i as int]@);
                                }
                                negated.push(exprs[i].duplicate().not());
                                i = i + 1;
                            }
                            let r = MirScalarExpr::CallVariadic {
                                func: vf.switch_and_or(),
                                exprs: negated,
                            };
                            proof {
                                lemma_views_of(negated@);
                                assert(views_of(negated@) =~= not_all(views_of(exprs@)));
                                lemma_rows_ok_list(negated@);
                            }
                            return r;
                        }
                        let back = MirScalarExpr::CallUnary {
                            func,
                            expr: Box::new(MirScalarExpr::CallVariadic { func: vf, exprs }),
                        };
                        proof {
                            assert(back@ == ev);
                        }
                        return back;
                    }
                    other => {
                        let back = MirScalarExpr::CallUnary { func, expr: Box::new(other) };
                        proof {
                            assert(back@ == ev);
                        }
                        return back;
                    }
                }
            }
            let back = MirScalarExpr::CallUnary { func, expr };
            proof {
                assert(back@ == ev);
            }
            back
        }
        _ => {
            proof {
                assert(false);
            }
            e
        }
    }
}

/// Applies the local binary rewrite.
#[verifier::loop_isolation(false)]
fn rewrite_binary_exec(e: MirScalarExpr, column_types: &Vec<ColumnType>) -> (r: MirScalarExpr)
    requires
        e matches MirScalarExpr::CallBinary { .. },
        rows_ok(e),
    ensures
        r@ == rewrite_node(e@, column_types@),
        rows_ok(r),
{
    let ghost ev = e@;
    match e {
        MirScalarExpr::CallBinary { func, expr1, expr2 } => {
            if expr1.is_literal() && expr2.is_literal() {
                let node = MirScalarExpr::CallBinary { func, expr1, expr2 };
                let empty: Vec<Datum> = Vec::new();
                proof {
                    assert(empty.deep_view() =~= Seq::<DatumV>::empty());
                    assert(node@ == ev);
                }
                let folded = node.eval(&empty);
                return MirScalarExpr::literal(folded, func.output_scalar());
            }
            if (expr1.is_literal_null() || expr2.is_literal_null()) && func.propagates_nulls() {
                return MirScalarExpr::literal_null(func.output_scalar());
            }
            match expr1.as_literal_err() {
                Some(err) => {
                    let dup = err.duplicate();
                    return MirScalarExpr::literal(Err(dup), func.output_scalar());
                }
                None => {}
            }
            match expr2.as_literal_err() {
                Some(err) => {
                    let dup = err.duplicate();
                    return MirScalarExpr::literal(Err(dup), func.output_scalar());
                }
                None => {}
            }
            if matches!(func, BinaryFunc::Eq | BinaryFunc::NotEq) && matches!(
                expr2.cmp_expr(&expr1),
                crate::order::Ord3::Less,
            ) {
                return MirScalarExpr::CallBinary { func, expr1: expr2, expr2: expr1 };
            }
            let back = MirScalarExpr::CallBinary { func, expr1, expr2 };
            proof {
                assert(back@ == ev);
            }
            back
        }
        _ => {
            proof {
                assert(false);
            }
            e
        }
    }
}

/// Applies the local COALESCE rewrite to flattened arguments.
#[verifier::loop_isolation(false)]
fn rewrite_coalesce_exec(args: Vec<MirScalarExpr>, column_types: &Vec<ColumnType>) -> (r:
    MirScalarExpr)
    requires
        rows_ok_list(args@),
    ensures
        r@ == rewrite_coalesce(
            views_of(args@),
            ExprV::CallVariadic { func: VariadicFunc::Coalesce, exprs: views_of(args@) },
            column_types@,
        ),
        rows_ok(r),
{
    let ghost av = views_of(args@);
    proof {
        lemma_views_of(args@);
        lemma_rows_ok_list(args@);
    }
    let mut all_null = true;
    let mut i: usize = 0;
    while i < args.len()
        invariant
            i <= args@.len(),
            all_null == forall|j: int| 0 <= j < i ==> is_null_lit(#[trigger] av[j]),
        decreases args@.len() - i,
    {
        proof {
            assert(rows_ok(args@[i as int]));
            assert(av[i as int] == args@[i as int]@);
        }
        if !args[i].is_literal_null() {
            all_null = false;
        }
        proof {
            if all_null {
                assert forall|j: int| 0 <= j < i + 1 implies is_null_lit(#[trigger] av[j]) by {}
            }
        }
        i = i + 1;
    }
    if all_null {
        let scalar = first_lit_scalar_exec(&args);
        return MirScalarExpr::literal_null(scalar);
    }
    proof {
        if forall|j: int| 0 <= j < av.len() ==> is_null_lit(#[trigger] av[j]) {
            assert(false);
        }
    }
    // Drop the NULL literals.
    let ghost pred = |a: ExprV| !is_null_lit(a);
    let mut nonnull: Vec<MirScalarExpr> = Vec::new();
    let mut i2: usize = 0;
    proof {
        assert(Seq::<ExprV>::empty().filter(pred) =~= Seq::<ExprV>::empty());
    }
    while i2 < args.len()
        invariant
            i2 <= args@.len(),
            views_of(nonnull@) == av.take(i2 as int).filter(pred),
            rows_ok_list(nonnull@),
        decreases args@.len() - i2,
    {
        let ghost pre = av.take(i2 as int);
        let ghost pre2 = av.take(i2 + 1);
        proof {
            assert(pre2.drop_last() =~= pre);
            assert(pre2.last() == av[i2 as int]);
            assert(av[i2 as int] == args@[i2 as int]@);
            assert(rows_ok(args@[i2 as int]));
            reveal_with_fuel(Seq::filter, 2);
        }
        if !args[i2].is_literal_null() {
            let ghost oldout = nonnull@;
            proof {
                lemma_rows_ok_list(oldout);
            }
            nonnull.push(args[i2].duplicate());
            proof {
                lemma_views_of(nonnull@);
                lemma_views_of(oldout);
                assert(views_of(nonnull@) =~= views_of(oldout).push(av[i2 as int]));
                lemma_rows_ok_list(nonnull@);
            }
        }
        i2 = i2 + 1;
    }
    proof {
        assert(av.take(av.len() as int) =~= av);
    }
    // Keep nothing past the first argument COALESCE cannot look past.
    let ghost nv = views_of(nonnull@);
    proof {
        lemma_views_of(nonnull@);
        lemma_rows_ok_list(nonnull@);
        assert(nv.skip(0) =~= nv);
    }
    let mut kept_raw: Vec<MirScalarExpr> = Vec::new();
    let mut i3: usize = 0;
    let mut stopped = false;
    while i3 < nonnull.len() && !stopped
        invariant
            i3 <= nonnull@.len(),
            views_of(kept_raw@) + (if stopped {
                Seq::<ExprV>::empty()
            } else {
                truncate_coalesce(nv.skip(i3 as int), column_types@)
            }) == truncate_coalesce(nv, column_types@),
            rows_ok_list(kept_raw@),
        decreases nonnull@.len() - i3,
    {
        let ghost rest = nv.skip(i3 as int);
        proof {
            assert(rest[0] == nv[i3 as int]);
            assert(rest.drop_first() =~= nv.skip(i3 + 1));
            assert(nv[i3 as int] == nonnull@[i3 as int]@);
            assert(rows_ok(nonnull@[i3 as int]));
        }
        let stops = nonnull[i3].is_literal() || nonnull[i3].check_nonnull(column_types);
        let ghost oldout = kept_raw@;
        proof {
            lemma_rows_ok_list(oldout);
        }
        kept_raw.push(nonnull[i3].duplicate());
        proof {
            lemma_views_of(kept_raw@);
            lemma_views_of(oldout);
            assert(views_of(kept_raw@) =~= views_of(oldout).push(nv[i3 as int]));
            lemma_rows_ok_list(kept_raw@);
        }
        if stops {
            stopped = true;
        }
        i3 = i3 + 1;
    }
    proof {
        if !stopped {
            assert(nv.skip(i3 as int).len() == 0);
            assert(truncate_coalesce(nv.skip(i3 as int), column_types@) =~= Seq::<ExprV>::empty());
        }
        assert(views_of(kept_raw@) =~= truncate_coalesce(nv, column_types@));
    }
    let mut kept = dedup_exec(&kept_raw);
    proof {
        lemma_views_of(kept@);
        lemma_rows_ok_list(kept@);
    }
    if kept.len() == 1 {
        proof {
            assert(rows_ok(kept@[0]));
        }
        match kept.pop() {
            Some(single) => single,
            None => MirScalarExpr::literal_null(ScalarType::Bool),
        }
    } else {
        MirScalarExpr::CallVariadic { func: VariadicFunc::Coalesce, exprs: kept }
    }
}

/// The scalar type of the first argument, where it is a literal.
fn first_lit_scalar_exec(args: &Vec<MirScalarExpr>) -> (r: ScalarType)
    ensures
        r == first_lit_scalar(views_of(args@)),
{
    proof {
        lemma_views_of(args@);
    }
    if args.len() > 0 {
        match &args[0] {
            MirScalarExpr::Literal(_, t) => t.scalar_type,
            _ => ScalarType::Bool,
        }
    } else {
        ScalarType::Bool
    }
}


/// Applies the local variadic rewrite.
#[verifier::loop_isolation(false)]
#[verifier::rlimit(60)]
fn rewrite_variadic_exec(e: MirScalarExpr, column_types: &Vec<ColumnType>) -> (r: MirScalarExpr)
    requires
        e matches MirScalarExpr::CallVariadic { .. },
        rows_ok(e),
    ensures
        r@ == rewrite_node(e@, column_types@),
        rows_ok(r),
{
    let ghost ev = e@;
    match e {
        MirScalarExpr::CallVariadic { func, exprs } => {
            proof {
                assert(rows_ok(e));
                assert(e == (MirScalarExpr::CallVariadic { func, exprs }));
                assert(ev == (ExprV::CallVariadic { func, exprs: views_of(exprs@) }));
                lemma_views_of(exprs@);
                lemma_rows_ok_list(exprs@);
            }
            let flattenable = matches!(
                func,
                VariadicFunc::And | VariadicFunc::Or | VariadicFunc::Coalesce,
            );
            let args = if flattenable {
                flatten_exec(&func, exprs)
            } else {
                exprs
            };
            let ghost argsv = views_of(args@);
            proof {
                lemma_views_of(args@);
                lemma_rows_ok_list(args@);
            }
            if matches!(func, VariadicFunc::Coalesce) {
                return rewrite_coalesce_exec(args, column_types);
            }
            if matches!(func, VariadicFunc::And | VariadicFunc::Or) {
                return undistribute_exec(&func, args);
            }
            let mut all_lit = true;
            let mut has_null_lit = false;
            let mut first_err: Option<EvalError> = None;
            let mut i: usize = 0;
            while i < args.len()
                invariant
                    i <= args@.len(),
                    all_lit == forall|j: int| 0 <= j < i ==> is_lit(#[trigger] argsv[j]),
                    has_null_lit == exists|j: int| 0 <= j < i && is_null_lit(#[trigger] argsv[j]),
                    match first_err {
                        Some(err) => (exists|j: int|
                            0 <= j < i && is_err_lit(#[trigger] argsv[j])) && err@
                            == err_of_first_err(argsv),
                        None => forall|j: int| 0 <= j < i ==> !is_err_lit(#[trigger] argsv[j]),
                    },
                decreases args@.len() - i,
            {
                proof {
                    assert(rows_ok(args@[i as int]));
                    assert(argsv[i as int] == args@[i as int]@);
                }
                if !args[i].is_literal() {
                    all_lit = false;
                }
                if args[i].is_literal_null() {
                    has_null_lit = true;
                }
                if first_err.is_none() {
                    match args[i].as_literal_err() {
                        Some(err) => {
                            proof {
                                lemma_first_err_lit(argsv, i as int);
                            }
                            first_err = Some(err.duplicate());
                        }
                        None => {}
                    }
                }
                proof {
                    if all_lit {
                        assert forall|j: int| 0 <= j < i + 1 implies is_lit(
                            #[trigger] argsv[j],
                        ) by {}
                    }
                }
                i = i + 1;
            }
            if all_lit {
                let ghost folded_args = crate::scalar::eval_args(argsv, Seq::empty());
                proof {
                    crate::scalar::lemma_eval_args(argsv, Seq::empty());
                }
                let mut vals: Vec<Result<Datum, EvalError>> = Vec::new();
                let empty: Vec<Datum> = Vec::new();
                proof {
                    assert(empty.deep_view() =~= Seq::<DatumV>::empty());
                }
                let mut j: usize = 0;
                while j < args.len()
                    invariant
                        j <= args@.len(),
                        vals@.len() == j,
                        forall|k: int|
                            0 <= k < j ==> crate::func::res_view(#[trigger] vals@[k])
                                == folded_args[k],
                    decreases args@.len() - j,
                {
                    proof {
                        assert(rows_ok(args@[j as int]));
                        assert(argsv[j as int] == args@[j as int]@);
                    }
                    vals.push(args[j].eval(&empty));
                    j = j + 1;
                }
                proof {
                    assert(crate::func::results_view(vals@) =~= folded_args);
                }
                let folded = crate::func::apply_variadic(&func, &vals);
                let scalar = if matches!(func, VariadicFunc::HmacString | VariadicFunc::HmacBytes) {
                    ScalarType::Bytes
                } else {
                    first_lit_scalar_exec(&args)
                };
                return MirScalarExpr::literal(folded, scalar);
            }
            proof {
                assert(!all_lits(argsv)) by {
                    let j = choose|j: int| 0 <= j < argsv.len() && !is_lit(#[trigger] argsv[j]);
                    assert(!is_lit(argsv[j]));
                }
            }
            if func.propagates_nulls() && has_null_lit {
                proof {
                    assert(func.propagates_nulls_spec());
                    assert(has_null_lit_in(argsv));
                }
                return MirScalarExpr::literal_null(ScalarType::Bytes);
            }
            if func.propagates_nulls() {
                match first_err {
                    Some(err) => {
                        proof {
                            assert(has_err_lit_in(argsv));
                            assert(!has_null_lit_in(argsv)) by {
                                if has_null_lit_in(argsv) {
                                    let j = choose|j: int|
                                        0 <= j < argsv.len() && is_null_lit(#[trigger] argsv[j]);
                                    assert(!is_null_lit(argsv[j]));
                                }
                            }
                        }
                        return MirScalarExpr::literal(Err(err), ScalarType::Bytes);
                    }
                    None => {}
                }
            }
            proof {
                if func.propagates_nulls_spec() && !has_null_lit {
                    assert(!has_null_lit_in(argsv)) by {
                        if has_null_lit_in(argsv) {
                            let j = choose|j: int|
                                0 <= j < argsv.len() && is_null_lit(#[trigger] argsv[j]);
                            assert(!is_null_lit(argsv[j]));
                        }
                    }
                }
                if first_err is None {
                    assert(!has_err_lit_in(argsv)) by {
                        if has_err_lit_in(argsv) {
                            let j = choose|j: int|
                                0 <= j < argsv.len() && is_err_lit(#[trigger] argsv[j]);
                            assert(!is_err_lit(argsv[j]));
                        }
                    }
                }
                lemma_rows_ok_list(args@);
            }
            let back = MirScalarExpr::CallVariadic { func, exprs: args };
            proof {
                assert(back@ == (ExprV::CallVariadic { func, exprs: argsv }));
            }
            back
        }
        _ => {
            proof {
                assert(false);
            }
            e
        }
    }
}

/// A literal error at a position with no earlier one is the first.
proof fn lemma_first_err_lit(es: Seq<ExprV>, i: int)
    requires
        0 <= i < es.len(),
        forall|j: int| 0 <= j < i ==> !is_err_lit(#[trigger] es[j]),
        is_err_lit(es[i]),
    ensures
        err_of_first_err(es) == err_of_lit(es[i]),
    decreases i,
{
    if i == 0 {
    } else {
        let rest = es.drop_first();
        assert forall|j: int| 0 <= j < i - 1 implies !is_err_lit(#[trigger] rest[j]) by {
            assert(rest[j] == es[j + 1]);
        }
        assert(rest[i - 1] == es[i]);
        assert(!is_err_lit(es[0]));
        lemma_first_err_lit(rest, i - 1);
    }
}

/// Applies the local conditional rewrite.
#[verifier::rlimit(60)]
fn rewrite_if_exec(e: MirScalarExpr, column_types: &Vec<ColumnType>) -> (r: MirScalarExpr)
    requires
        e matches MirScalarExpr::If { .. },
        rows_ok(e),
    ensures
        r@ == rewrite_node(e@, column_types@),
        rows_ok(r),
{
    let ghost ev = e@;
    match e {
        MirScalarExpr::If { cond, when_true, when_false } => {
            proof {
                assert(rows_ok(e));
                assert(e == (MirScalarExpr::If { cond, when_true, when_false }));
                assert(ev == (ExprV::If {
                    cond: Box::new(cond@),
                    when_true: Box::new(when_true@),
                    when_false: Box::new(when_false@),
                }));
            }
            if cond.is_literal() {
                if cond.is_literal_true() {
                    return *when_true;
                }
                if cond.is_literal_false() || cond.is_literal_null() {
                    return *when_false;
                }
                match cond.as_literal_err() {
                    Some(err) => {
                        let dup = err.duplicate();
                        let pair_first = when_true.is_literal();
                        let scalar = if pair_first {
                            match &*when_true {
                                MirScalarExpr::Literal(_, t) => t.scalar_type,
                                _ => ScalarType::Bool,
                            }
                        } else {
                            ScalarType::Bool
                        };
                        proof {
                            assert(first_lit_scalar(seq![when_true@, when_false@]) == scalar);
                        }
                        return MirScalarExpr::literal(Err(dup), scalar);
                    }
                    None => {}
                }
                let back = MirScalarExpr::If { cond, when_true, when_false };
                proof {
                    assert(back@ == ev);
                }
                return back;
            }
            if when_true.eq_expr(&when_false) {
                return *when_true;
            }
            let t_bool_lit = match &*when_true {
                MirScalarExpr::Literal(Ok(_), t) => matches!(t.scalar_type, ScalarType::Bool),
                _ => false,
            };
            let f_bool_lit = match &*when_false {
                MirScalarExpr::Literal(Ok(_), t) => matches!(t.scalar_type, ScalarType::Bool),
                _ => false,
            };
            if t_bool_lit && f_bool_lit {
                if when_true.is_literal_true() {
                    let r = cond
                        .duplicate()
                        .call_is_null()
                        .not()
                        .and(*cond)
                        .or(*when_false);
                    proof {
                        assert(r@ =~= rewrite_node(ev, column_types@));
                    }
                    return r;
                }
                if when_true.is_literal_false() {
                    let r = cond.duplicate().not().or(cond.duplicate().call_is_null()).and(
                        *when_false,
                    );
                    proof {
                        assert(r@ =~= rewrite_node(ev, column_types@));
                    }
                    return r;
                }
                if when_false.is_literal_true() {
                    let inner_or = cond.duplicate().not().or(cond.duplicate().call_is_null());
                    let r = match inner_or {
                        MirScalarExpr::CallVariadic { func: _, exprs: mut two } => {
                            proof {
                                lemma_views_of(two@);
                                lemma_rows_ok_list(two@);
                            }
                            let ghost oldtwo = two@;
                            two.push(*when_true);
                            proof {
                                lemma_views_of(two@);
                                assert(views_of(two@) =~= views_of(oldtwo).push(when_true@));
                                lemma_rows_ok_list(two@);
                            }
                            MirScalarExpr::CallVariadic { func: VariadicFunc::Or, exprs: two }
                        }
                        _ => inner_or,
                    };
                    proof {
                        match r {
                            MirScalarExpr::CallVariadic { exprs: ref two2, .. } => {
                                lemma_views_of(two2@);
                                assert(views_of(two2@) =~= seq![
                                    not1(cond@),
                                    is_null1(cond@),
                                    when_true@,
                                ]);
                            }
                            _ => {}
                        }
                        assert(r@ =~= rewrite_node(ev, column_types@));
                    }
                    return r;
                }
                if when_false.is_literal_false() {
                    let inner_and = cond.duplicate().call_is_null().not().and(*cond);
                    let r = match inner_and {
                        MirScalarExpr::CallVariadic { func: _, exprs: mut two } => {
                            proof {
                                lemma_views_of(two@);
                                lemma_rows_ok_list(two@);
                            }
                            let ghost oldtwo = two@;
                            two.push(*when_true);
                            proof {
                                lemma_views_of(two@);
                                assert(views_of(two@) =~= views_of(oldtwo).push(when_true@));
                                lemma_rows_ok_list(two@);
                            }
                            MirScalarExpr::CallVariadic { func: VariadicFunc::And, exprs: two }
                        }
                        _ => inner_and,
                    };
                    proof {
                        match r {
                            MirScalarExpr::CallVariadic { exprs: ref two2, .. } => {
                                lemma_views_of(two2@);
                                assert(views_of(two2@) =~= seq![
                                    not1(is_null1(cond@)),
                                    cond@,
                                    when_true@,
                                ]);
                            }
                            _ => {}
                        }
                        assert(r@ =~= rewrite_node(ev, column_types@));
                    }
                    return r;
                }
            }
            let back = MirScalarExpr::If { cond, when_true, when_false };
            proof {
                assert(back@ == ev);
            }
            back
        }
        _ => {
            proof {
                assert(false);
            }
            e
        }
    }
}

/// Applies the local rewrite at a node whose children are simplified.
fn rewrite_node_exec(e: MirScalarExpr, column_types: &Vec<ColumnType>) -> (r: MirScalarExpr)
    requires
        rows_ok(e),
    ensures
        r@ == rewrite_node(e@, column_types@),
        rows_ok(r),
{
    match &e {
        MirScalarExpr::CallUnary { .. } => rewrite_unary_exec(e, column_types),
        MirScalarExpr::CallBinary { .. } => rewrite_binary_exec(e, column_types),
        MirScalarExpr::CallVariadic { .. } => rewrite_variadic_exec(e, column_types),
        MirScalarExpr::If { .. } => rewrite_if_exec(e, column_types),
        _ => e,
    }
}

/// One full bottom-up pass over the expression.
#[verifier::loop_isolation(false)]
#[verifier::rlimit(100)]
fn simplify_exec(e: &MirScalarExpr, column_types: &Vec<ColumnType>) -> (r: MirScalarExpr)
    requires
        rows_ok(*e),
    ensures
        r@ == simplify(e@, column_types@),
        rows_ok(r),
    decreases *e,
{
    let ghost ev = e@;
    let with_children = match e {
        MirScalarExpr::CallUnary { func, expr } => {
            proof {
                assert(ev == (ExprV::CallUnary { func: *func, expr: Box::new(expr@) }));
                assert(rows_ok(**expr));
            }
            MirScalarExpr::CallUnary {
                func: *func,
                expr: Box::new(simplify_exec(expr, column_types)),
            }
        }
        MirScalarExpr::CallBinary { func, expr1, expr2 } => {
            proof {
                assert(ev == (ExprV::CallBinary {
                    func: *func,
                    expr1: Box::new(expr1@),
                    expr2: Box::new(expr2@),
                }));
                assert(rows_ok(**expr1) && rows_ok(**expr2));
            }
            MirScalarExpr::CallBinary {
                func: *func,
                expr1: Box::new(simplify_exec(expr1, column_types)),
                expr2: Box::new(simplify_exec(expr2, column_types)),
            }
        }
        MirScalarExpr::CallVariadic { func, exprs } => {
            proof {
                assert(ev == (ExprV::CallVariadic { func: *func, exprs: views_of(exprs@) }));
                lemma_views_of(exprs@);
                lemma_rows_ok_list(exprs@);
                lemma_simplify_list(views_of(exprs@), column_types@);
            }
            let ghost esv = views_of(exprs@);
            let mut done: Vec<MirScalarExpr> = Vec::new();
            let mut i: usize = 0;
            while i < exprs.len()
                invariant
                    i <= exprs@.len(),
                    done@.len() == i,
                    forall|j: int|
                        0 <= j < i ==> (#[trigger] done@[j])@ == simplify_list(esv, column_types@)[j]
                            && rows_ok(done@[j]),
                decreases exprs@.len() - i,
            {
                proof {
                    assert(decreases_to!(*exprs => exprs@));
                    assert(decreases_to!(exprs@ => exprs@[i as int]));
                    assert(rows_ok(exprs@[i as int]));
                    assert(esv[i as int] == exprs@[i as int]@);
                }
                done.push(simplify_exec(&exprs[i], column_types));
                i = i + 1;
            }
            let r0 = MirScalarExpr::CallVariadic { func: *func, exprs: done };
            proof {
                match r0 {
                    MirScalarExpr::CallVariadic { func: f2, exprs: ref d2 } => {
                        lemma_views_of(d2@);
                        assert(views_of(d2@) =~= simplify_list(esv, column_types@));
                        lemma_rows_ok_list(d2@);
                    }
                    _ => {}
                }
            }
            r0
        }
        MirScalarExpr::If { cond, when_true, when_false } => {
            proof {
                assert(ev == (ExprV::If {
                    cond: Box::new(cond@),
                    when_true: Box::new(when_true@),
                    when_false: Box::new(when_false@),
                }));
                assert(rows_ok(**cond) && rows_ok(**when_true) && rows_ok(**when_false));
            }
            MirScalarExpr::If {
                cond: Box::new(simplify_exec(cond, column_types)),
                when_true: Box::new(simplify_exec(when_true, column_types)),
                when_false: Box::new(simplify_exec(when_false, column_types)),
            }
        }
        other => other.duplicate(),
    };
    rewrite_node_exec(with_children, column_types)
}

/// `simplify_list` is the pointwise pass over its input.
pub proof fn lemma_simplify_list(es: Seq<ExprV>, ctx: Seq<ColumnType>)
    ensures
        simplify_list(es, ctx).len() == es.len(),
        forall|i: int|
            0 <= i < es.len() ==> #[trigger] simplify_list(es, ctx)[i] == simplify(es[i], ctx),
    decreases es.len(),
{
    if es.len() > 0 {
        lemma_simplify_list(es.drop_last(), ctx);
        assert forall|i: int| 0 <= i < es.len() implies #[trigger] simplify_list(es, ctx)[i]
            == simplify(es[i], ctx) by {
            if i < es.len() - 1 {
                assert(es.drop_last()[i] == es[i]);
            } else {
                assert(es.last() == es[i]);
            }
        }
    }
}

impl MirScalarExpr {
    /// Simplifies the expression in place, using the nullability the input
    /// schema declares, until a pass changes nothing or the pass budget is
    /// spent.
    #[verifier::loop_isolation(false)]
    pub fn reduce(&mut self, column_types: &Vec<ColumnType>)
        requires
            rows_ok(*old(self)),
        ensures
            final(self)@ == reduce_spec(old(self)@, column_types@),
            rows_ok(*final(self)),
    {
        let ghost orig = self@;
        let mut cur = self.take();
        let mut fuel: u64 = REDUCE_FUEL;
        while fuel > 0
            invariant
                rows_ok(cur),
                reduce_fuel(cur@, column_types@, fuel as nat) == reduce_spec(
                    orig,
                    column_types@,
                ),
            decreases fuel,
        {
            let ghost before = cur@;
            let next = simplify_exec(&cur, column_types);
            if next.eq_expr(&cur) {
                proof {
                    assert(reduce_fuel(before, column_types@, fuel as nat) == before);
                }
                break;
            }
            cur = next;
            fuel = fuel - 1;
        }
        *self = cur;
    }
}


/// The literal that evaluating the given unary function on a literal
/// outcome produces.
pub open spec fn eval_unary_lit(g: UnaryFunc, lit: ExprV) -> ExprV {
    literal_spec(
        crate::scalar::eval_expr(
            ExprV::CallUnary { func: g, expr: Box::new(lit) },
            Seq::empty(),
        ),
        g.output_scalar_type(),
    )
}

/// Inverting one invertible call around a literal equality: from
/// `lit = f(inner)` to the pair `(inner, f_inverse(lit))`, when both the
/// call and its inverse preserve uniqueness and the inverse evaluates on
/// the literal without error. Otherwise the pair is returned unchanged.
pub open spec fn invert_inner(expr: ExprV, lit: ExprV) -> (ExprV, ExprV) {
    match expr {
        ExprV::CallUnary { func, expr: inner } => match func.inverse_spec() {
            Some(g) => if func.preserves_uniqueness_spec() && g.preserves_uniqueness_spec() {
                let lit_inv = eval_unary_lit(g, lit);
                if is_err_lit(lit_inv) {
                    (expr, lit)
                } else {
                    (*inner, lit_inv)
                }
            } else {
                (expr, lit)
            },
            None => (expr, lit),
        },
        _ => (expr, lit),
    }
}

/// What `invert_casts_on_expr_eq_literal` rewrites to: for an equality
/// with a literal on either side, the inverted pair with the literal put
/// first; any other expression is left alone.
pub open spec fn invert_casts_spec(e: ExprV) -> ExprV {
    match e {
        ExprV::CallBinary { func: BinaryFunc::Eq, expr1, expr2 } => if *expr1 is Literal {
            let pair = invert_inner(*expr2, *expr1);
            ExprV::CallBinary {
                func: BinaryFunc::Eq,
                expr1: Box::new(pair.1),
                expr2: Box::new(pair.0),
            }
        } else if *expr2 is Literal {
            let pair = invert_inner(*expr1, *expr2);
            ExprV::CallBinary {
                func: BinaryFunc::Eq,
                expr1: Box::new(pair.1),
                expr2: Box::new(pair.0),
            }
        } else {
            e
        },
        _ => e,
    }
}

/// Whether the equality with a literal is impossible because the inverse
/// of the outer call fails on the literal.
pub open spec fn impossible_eq_spec(e: ExprV) -> bool {
    match e {
        ExprV::CallBinary { func: BinaryFunc::Eq, expr1, expr2 } => {
            (*expr1 is Literal && impossible_inner(*expr2, *expr1)) || (!(*expr1 is Literal)
                && *expr2 is Literal && impossible_inner(*expr1, *expr2))
        }
        _ => false,
    }
}

/// Whether the inverse of the outer call of the expression fails on the
/// literal.
pub open spec fn impossible_inner(expr: ExprV, lit: ExprV) -> bool {
    match expr {
        ExprV::CallUnary { func, .. } => match func.inverse_spec() {
            Some(g) => g.preserves_uniqueness_spec() && is_err_lit(eval_unary_lit(g, lit)),
            None => false,
        },
        _ => false,
    }
}

/// Evaluates a unary function on a literal into a new literal.
fn eval_unary_lit_exec(g: UnaryFunc, lit: &MirScalarExpr) -> (r: MirScalarExpr)
    requires
        rows_ok(*lit),
        lit@ is Literal,
    ensures
        r@ == eval_unary_lit(g, lit@),
        rows_ok(r),
{
    let call = MirScalarExpr::CallUnary { func: g, expr: Box::new(lit.duplicate()) };
    let empty: Vec<Datum> = Vec::new();
    proof {
        assert(empty.deep_view() =~= Seq::<DatumV>::empty());
        assert(call@ == (ExprV::CallUnary { func: g, expr: Box::new(lit@) }));
    }
    let folded = call.eval(&empty);
    MirScalarExpr::literal(folded, g.output_scalar())
}

impl MirScalarExpr {
    /// For a literal equality whose other side is an invertible call,
    /// applies the inverse to both sides and puts the literal first;
    /// any other expression comes back unchanged.
    pub fn invert_casts_on_expr_eq_literal(&self) -> (r: MirScalarExpr)
        requires
            rows_ok(*self),
        ensures
            r@ == invert_casts_spec(self@),
            rows_ok(r),
    {
        let ghost ev = self@;
        match self {
            MirScalarExpr::CallBinary { func: BinaryFunc::Eq, expr1, expr2 } => {
                proof {
                    assert(ev == (ExprV::CallBinary {
                        func: BinaryFunc::Eq,
                        expr1: Box::new(expr1@),
                        expr2: Box::new(expr2@),
                    }));
                    assert(rows_ok(**expr1) && rows_ok(**expr2));
                }
                if expr1.is_literal() {
                    let pair = invert_inner_exec(expr2, expr1);
                    return MirScalarExpr::CallBinary {
                        func: BinaryFunc::Eq,
                        expr1: Box::new(pair.1),
                        expr2: Box::new(pair.0),
                    };
                }
                if expr2.is_literal() {
                    let pair = invert_inner_exec(expr1, expr2);
                    return MirScalarExpr::CallBinary {
                        func: BinaryFunc::Eq,
                        expr1: Box::new(pair.1),
                        expr2: Box::new(pair.0),
                    };
                }
                self.duplicate()
            }
            _ => self.duplicate(),
        }
    }

    /// Whether the expression is a literal equality that can never hold
    /// because the inverse of the outer call fails on the literal.
    pub fn impossible_literal_equality_because_types(&self) -> (r: bool)
        requires
            rows_ok(*self),
        ensures
            r == impossible_eq_spec(self@),
    {
        let ghost ev = self@;
        match self {
            MirScalarExpr::CallBinary { func: BinaryFunc::Eq, expr1, expr2 } => {
                proof {
                    assert(ev == (ExprV::CallBinary {
                        func: BinaryFunc::Eq,
                        expr1: Box::new(expr1@),
                        expr2: Box::new(expr2@),
                    }));
                    assert(rows_ok(**expr1) && rows_ok(**expr2));
                }
                if expr1.is_literal() {
                    impossible_inner_exec(expr2, expr1)
                } else if expr2.is_literal() {
                    impossible_inner_exec(expr1, expr2)
                } else {
                    false
                }
            }
            _ => false,
        }
    }

    /// Whether the expression compares something with a literal by one of
    /// the four order comparisons.
    pub fn any_expr_ineq_literal(&self) -> (r: bool)
        ensures
            r == (self@ matches ExprV::CallBinary { func, expr1, expr2 } && (func is Lt
                || func is Lte || func is Gt || func is Gte) && (*expr1 is Literal
                || *expr2 is Literal)),
    {
        match self {
            MirScalarExpr::CallBinary { func, expr1, expr2 } => {
                matches!(func, BinaryFunc::Lt | BinaryFunc::Lte | BinaryFunc::Gt | BinaryFunc::Gte)
                    && (expr1.is_literal() || expr2.is_literal())
            }
            _ => false,
        }
    }

    /// The arguments of a call of the given connective, or the expression
    /// itself as a one-element list.
    pub fn and_or_args(&self, func_to_match: VariadicFunc) -> (r: Vec<MirScalarExpr>)
        requires
            func_to_match is And || func_to_match is Or,
            rows_ok(*self),
        ensures
            views_of(r@) == and_or_args_of(self@, func_to_match),
            rows_ok_list(r@),
    {
        and_or_args_exec(self, &func_to_match)
    }
}

/// Inverts one invertible call around a literal equality.
fn invert_inner_exec(expr: &MirScalarExpr, lit: &MirScalarExpr) -> (r: (
    MirScalarExpr,
    MirScalarExpr,
))
    requires
        rows_ok(*expr),
        rows_ok(*lit),
        lit@ is Literal,
    ensures
        (r.0@, r.1@) == invert_inner(expr@, lit@),
        rows_ok(r.0),
        rows_ok(r.1),
{
    let ghost ev = expr@;
    match expr {
        MirScalarExpr::CallUnary { func, expr: inner } => {
            proof {
                assert(ev == (ExprV::CallUnary { func: *func, expr: Box::new(inner@) }));
                assert(rows_ok(**inner));
            }
            match func.inverse() {
                Some(g) => {
                    if func.preserves_uniqueness() && g.preserves_uniqueness() {
                        let lit_inv = eval_unary_lit_exec(g, lit);
                        if lit_inv.is_literal_err() {
                            (expr.duplicate(), lit.duplicate())
                        } else {
                            (inner.duplicate(), lit_inv)
                        }
                    } else {
                        (expr.duplicate(), lit.duplicate())
                    }
                }
                None => (expr.duplicate(), lit.duplicate()),
            }
        }
        _ => (expr.duplicate(), lit.duplicate()),
    }
}

/// Whether the inverse of the outer call fails on the literal.
fn impossible_inner_exec(expr: &MirScalarExpr, lit: &MirScalarExpr) -> (r: bool)
    requires
        rows_ok(*expr),
        rows_ok(*lit),
        lit@ is Literal,
    ensures
        r == impossible_inner(expr@, lit@),
{
    let ghost ev = expr@;
    match expr {
        MirScalarExpr::CallUnary { func, expr: inner } => {
            proof {
                assert(ev == (ExprV::CallUnary { func: *func, expr: Box::new(inner@) }));
            }
            match func.inverse() {
                Some(g) => {
                    g.preserves_uniqueness() && eval_unary_lit_exec(g, lit).is_literal_err()
                }
                None => false,
            }
        }
        _ => false,
    }
}

} // verus!