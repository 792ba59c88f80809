//! A small heuristic that scores a conjunction of predicates for join
//! ordering: which kinds of filters appear, and a multiplicative estimate
//! of how much they narrow the input. Bigger characteristics sort later,
//! so orderings read "more selective first".

use vstd::prelude::*;

use crate::datum::DatumV;
use crate::func::{BinaryFunc, UnaryFunc};
use crate::scalar::{ExprV, MirScalarExpr, lemma_views_of, lemma_rows_ok_list, rows_ok, rows_ok_list, views_of};

verus! {

/// What kinds of predicates a conjunction holds.
#[derive(Clone, Copy, Debug, PartialEq, Eq, Structural)]
pub struct FilterCharacteristics {
    /// Some conjunct equates an expression with a literal, not under a NOT.
    pub literal_equality: bool,
    /// Some conjunct applies a LIKE match, not under a NOT.
    pub like: bool,
    /// Some conjunct tests IS NULL, not under a NOT.
    pub is_null: bool,
    /// How many conjuncts compare against something by an order comparison,
    /// not under a NOT.
    pub literal_inequality: u64,
    /// Whether any conjunct filters at all, not counting bare IS NOT NULL.
    pub any_filter: bool,
}

/// Whether the expression holds, not under a NOT, an equality with a
/// literal on either side.
pub open spec fn has_eq_lit(e: ExprV) -> bool
    decreases e,
{
    match e {
        ExprV::CallUnary { func, expr } => !(func is Not) && has_eq_lit(*expr),
        ExprV::CallBinary { func, expr1, expr2 } => {
            ||| (func is Eq && (*expr1 is Literal || *expr2 is Literal))
            ||| has_eq_lit(*expr1)
            ||| has_eq_lit(*expr2)
        }
        ExprV::CallVariadic { exprs, .. } => exists|i: int|
            0 <= i < exprs.len() && has_eq_lit(#[trigger] exprs[i]),
        ExprV::If { cond, when_true, when_false } => has_eq_lit(*cond) || has_eq_lit(*when_true)
            || has_eq_lit(*when_false),
        _ => false,
    }
}

/// Whether the expression holds, not under a NOT, a LIKE match.
pub open spec fn has_like(e: ExprV) -> bool
    decreases e,
{
    match e {
        ExprV::CallUnary { func, expr } => !(func is Not) && has_like(*expr),
        ExprV::CallBinary { func, expr1, expr2 } => {
            ||| func is IsLikeMatch
            ||| has_like(*expr1)
            ||| has_like(*expr2)
        }
        ExprV::CallVariadic { exprs, .. } => exists|i: int|
            0 <= i < exprs.len() && has_like(#[trigger] exprs[i]),
        ExprV::If { cond, when_true, when_false } => has_like(*cond) || has_like(*when_true)
            || has_like(*when_false),
        _ => false,
    }
}

/// Whether the expression holds an IS NULL test; under a NOT the test
/// counts for the second answer instead, as an IS NOT NULL.
pub open spec fn has_is_null(e: ExprV, under_not: bool) -> bool
    decreases e,
{
    match e {
        ExprV::CallUnary { func, expr } => {
            ||| (func is IsNull && !under_not)
            ||| has_is_null(*expr, under_not || func is Not)
        }
        ExprV::CallBinary { expr1, expr2, .. } => has_is_null(*expr1, under_not) || has_is_null(
            *expr2,
            under_not,
        ),
        ExprV::CallVariadic { exprs, .. } => exists|i: int|
            0 <= i < exprs.len() && has_is_null(#[trigger] exprs[i], under_not),
        ExprV::If { cond, when_true, when_false } => has_is_null(*cond, under_not) || has_is_null(
            *when_true,
            under_not,
        ) || has_is_null(*when_false, under_not),
        _ => false,
    }
}

/// Whether the expression holds an IS NULL test under a NOT.
pub open spec fn has_is_not_null(e: ExprV, under_not: bool) -> bool
    decreases e,
{
    match e {
        ExprV::CallUnary { func, expr } => {
            ||| (func is IsNull && under_not)
            ||| has_is_not_null(*expr, under_not || func is Not)
        }
        ExprV::CallBinary { expr1, expr2, .. } => has_is_not_null(*expr1, under_not)
            || has_is_not_null(*expr2, under_not),
        ExprV::CallVariadic { exprs, .. } => exists|i: int|
            0 <= i < exprs.len() && has_is_not_null(#[trigger] exprs[i], under_not),
        ExprV::If { cond, when_true, when_false } => has_is_not_null(*cond, under_not)
            || has_is_not_null(*when_true, under_not) || has_is_not_null(*when_false, under_not),
        _ => false,
    }
}

/// Whether the expression holds, not under a NOT, an order comparison with
/// a literal on either side.
pub open spec fn has_ineq_lit(e: ExprV) -> bool
    decreases e,
{
    match e {
        ExprV::CallUnary { func, expr } => !(func is Not) && has_ineq_lit(*expr),
        ExprV::CallBinary { func, expr1, expr2 } => {
            ||| ((func is Lt || func is Lte || func is Gt || func is Gte) && (*expr1 is Literal
                || *expr2 is Literal))
            ||| has_ineq_lit(*expr1)
            ||| has_ineq_lit(*expr2)
        }
        ExprV::CallVariadic { exprs, .. } => exists|i: int|
            0 <= i < exprs.len() && has_ineq_lit(#[trigger] exprs[i]),
        ExprV::If { cond, when_true, when_false } => has_ineq_lit(*cond) || has_ineq_lit(
            *when_true,
        ) || has_ineq_lit(*when_false),
        _ => false,
    }
}

/// How many conjuncts of the list hold a literal order comparison.
pub open spec fn count_ineq(es: Seq<ExprV>) -> int
    decreases es.len(),
{
    if es.len() == 0 {
        0
    } else {
        count_ineq(es.drop_last()) + if has_ineq_lit(es.last()) {
            1int
        } else {
            0int
        }
    }
}

/// Whether some conjunct is a filter other than a bare IS NOT NULL.
pub open spec fn some_any_filter(es: Seq<ExprV>) -> bool {
    exists|i: int| 0 <= i < es.len() && !has_is_not_null(#[trigger] es[i], false)
}

/// What `filter_characteristics` answers on a list of conjuncts.
pub open spec fn fc_spec(es: Seq<ExprV>) -> FilterCharacteristics {
    FilterCharacteristics {
        literal_equality: exists|i: int| 0 <= i < es.len() && has_eq_lit(#[trigger] es[i]),
        like: exists|i: int| 0 <= i < es.len() && has_like(#[trigger] es[i]),
        is_null: exists|i: int| 0 <= i < es.len() && has_is_null(#[trigger] es[i], false),
        literal_inequality: (if count_ineq(es) > u64::MAX as int {
            u64::MAX as int
        } else {
            count_ineq(es)
        }) as u64,
        any_filter: some_any_filter(es),
    }
}

impl MirScalarExpr {
    /// Whether the expression holds each classified feature, walking the
    /// whole tree with NOT-awareness.
    #[verifier::loop_isolation(false)]
    fn classify(&self, under_not: bool) -> (r: (bool, bool, bool, bool, bool))
        requires
            rows_ok(*self),
        ensures
            r.0 == (!under_not && has_eq_lit(self@)),
            r.1 == (!under_not && has_like(self@)),
            r.2 == has_is_null(self@, under_not),
            r.3 == has_is_not_null(self@, under_not),
            r.4 == (!under_not && has_ineq_lit(self@)),
        decreases *self,
    {
        match self {
            MirScalarExpr::CallUnary { func, expr } => {
                let inner_not = under_not || matches!(func, UnaryFunc::Not);
                let sub = expr.classify(inner_not);
                let isnull_here = matches!(func, UnaryFunc::IsNull);
                (
                    !under_not && !matches!(func, UnaryFunc::Not) && sub.0,
                    !under_not && !matches!(func, UnaryFunc::Not) && sub.1,
                    (isnull_here && !under_not) || sub.2,
                    (isnull_here && under_not) || sub.3,
                    !under_not && !matches!(func, UnaryFunc::Not) && sub.4,
                )
            }
            MirScalarExpr::CallBinary { func, expr1, expr2 } => {
                let s1 = expr1.classify(under_not);
                let s2 = expr2.classify(under_not);
                let eq_here = matches!(func, BinaryFunc::Eq) && (expr1.is_literal()
                    || expr2.is_literal());
                let like_here = matches!(func, BinaryFunc::IsLikeMatch { .. });
                let ineq_here = matches!(
                    func,
                    BinaryFunc::Lt | BinaryFunc::Lte | BinaryFunc::Gt | BinaryFunc::Gte,
                ) && (expr1.is_literal() || expr2.is_literal());
                (
                    (!under_not && eq_here) || s1.0 || s2.0,
                    (!under_not && like_here) || s1.1 || s2.1,
                    s1.2 || s2.2,
                    s1.3 || s2.3,
                    (!under_not && ineq_here) || s1.4 || s2.4,
                )
            }
            MirScalarExpr::CallVariadic { func, exprs } => {
                proof {
                    lemma_views_of(exprs@);
                    lemma_rows_ok_list(exprs@);
                    assert(self@ == (ExprV::CallVariadic {
                        func: *func,
                        exprs: views_of(exprs@),
                    }));
                }
                let ghost esv = views_of(exprs@);
                let mut acc = (false, false, false, false, false);
                let mut i: usize = 0;
                while i < exprs.len()
                    invariant
                        i <= exprs@.len(),
                        acc.0 == (!under_not && exists|j: int|
                            0 <= j < i && has_eq_lit(#[trigger] esv[j])),
                        acc.1 == (!under_not && exists|j: int|
                            0 <= j < i && has_like(#[trigger] esv[j])),
                        acc.2 == exists|j: int|
                            0 <= j < i && has_is_null(#[trigger] esv[j], under_not),
                        acc.3 == exists|j: int|
                            0 <= j < i && has_is_not_null(#[trigger] esv[j], under_not),
                        acc.4 == (!under_not && exists|j: int|
                            0 <= j < i && has_ineq_lit(#[trigger] esv[j])),
                    decreases exprs@.len() - i,
                {
                    proof {
                        assert(decreases_to!(*exprs => exprs@));
                        assert(decreases_to!(exprs@ => exprs@[i as int]));
                        assert(rows_ok(exprs@[i as int]));
                        assert(esv[i as int] == exprs@[i as int]@);
                    }
                    let sub = exprs[i].classify(under_not);
                    acc = (
                        acc.0 || sub.0,
                        acc.1 || sub.1,
                        acc.2 || sub.2,
                        acc.3 || sub.3,
                        acc.4 || sub.4,
                    );
                    i = i + 1;
                }
                proof {
                    if acc.0 {
                        let j = choose|j: int| 0 <= j < i && has_eq_lit(#[trigger] esv[j]);
                        assert(0 <= j < esv.len() && has_eq_lit(esv[j]));
                        assert(self@->CallVariadic_exprs == esv);
                        assert(0 <= j < self@->CallVariadic_exprs.len() && has_eq_lit(
                            self@->CallVariadic_exprs[j],
                        ));
                        assert(has_eq_lit(self@));
                    }
                    if has_eq_lit(self@) && !under_not {
                        let j = choose|j: int| 0 <= j < esv.len() && has_eq_lit(#[trigger] esv[j]);
                        assert(has_eq_lit(esv[j]));
                    }
                    if acc.1 {
                        let j = choose|j: int| 0 <= j < i && has_like(#[trigger] esv[j]);
                        assert(self@->CallVariadic_exprs == esv);
                        assert(0 <= j < self@->CallVariadic_exprs.len() && has_like(
                            self@->CallVariadic_exprs[j],
                        ));
                        assert(has_like(self@));
                    }
                    if has_like(self@) && !under_not {
                        let j = choose|j: int| 0 <= j < esv.len() && has_like(#[trigger] esv[j]);
                        assert(has_like(esv[j]));
                    }
                    if acc.2 {
                        let j = choose|j: int|
                            0 <= j < i && has_is_null(#[trigger] esv[j], under_not);
                        assert(0 <= j < esv.len() && has_is_null(esv[j], under_not));
                        assert(self@->CallVariadic_exprs == esv);
                        assert(0 <= j < self@->CallVariadic_exprs.len() && has_is_null(
                            self@->CallVariadic_exprs[j],
                            under_not,
                        ));
                        assert(has_is_null(self@, under_not));
                    }
                    if has_is_null(self@, under_not) {
                        let j = choose|j: int|
                            0 <= j < esv.len() && has_is_null(#[trigger] esv[j], under_not);
                        assert(has_is_null(esv[j], under_not));
                    }
                    if acc.3 {
                        let j = choose|j: int|
                            0 <= j < i && has_is_not_null(#[trigger] esv[j], under_not);
                        assert(self@->CallVariadic_exprs == esv);
                        assert(0 <= j < self@->CallVariadic_exprs.len() && has_is_not_null(
                            self@->CallVariadic_exprs[j],
                            under_not,
                        ));
                        assert(has_is_not_null(self@, under_not));
                    }
                    if has_is_not_null(self@, under_not) {
                        let j = choose|j: int|
                            0 <= j < esv.len() && has_is_not_null(#[trigger] esv[j], under_not);
                        assert(has_is_not_null(esv[j], under_not));
                    }
                    if acc.4 {
                        let j = choose|j: int| 0 <= j < i && has_ineq_lit(#[trigger] esv[j]);
                        assert(self@->CallVariadic_exprs == esv);
                        assert(0 <= j < self@->CallVariadic_exprs.len() && has_ineq_lit(
                            self@->CallVariadic_exprs[j],
                        ));
                        assert(has_ineq_lit(self@));
                    }
                    if has_ineq_lit(self@) && !under_not {
                        let j = choose|j: int|
                            0 <= j < esv.len() && has_ineq_lit(#[trigger] esv[j]);
                        assert(has_ineq_lit(esv[j]));
                    }
                }
                acc
            }
            MirScalarExpr::If { cond, when_true, when_false } => {
                let s1 = cond.classify(under_not);
                let s2 = when_true.classify(under_not);
                let s3 = when_false.classify(under_not);
                (
                    s1.0 || s2.0 || s3.0,
                    s1.1 || s2.1 || s3.1,
                    s1.2 || s2.2 || s3.2,
                    s1.3 || s2.3 || s3.3,
                    s1.4 || s2.4 || s3.4,
                )
            }
            _ => (false, false, false, false, false),
        }
    }
}

impl FilterCharacteristics {
    /// The characteristics of no filters at all.
    pub fn none() -> (r: FilterCharacteristics)
        ensures
            r == (FilterCharacteristics {
                literal_equality: false,
                like: false,
                is_null: false,
                literal_inequality: 0u64,
                any_filter: false,
            }),
    {
        FilterCharacteristics {
            literal_equality: false,
            like: false,
            is_null: false,
            literal_inequality: 0,
            any_filter: false,
        }
    }

    /// Classifies a list of top-level conjuncts.
    #[verifier::loop_isolation(false)]
    pub fn filter_characteristics(filters: &Vec<MirScalarExpr>) -> (r: FilterCharacteristics)
        requires
            rows_ok_list(filters@),
        ensures
            r == fc_spec(views_of(filters@)),
    {
        let ghost esv = views_of(filters@);
        proof {
            lemma_views_of(filters@);
            lemma_rows_ok_list(filters@);
        }
        let mut r = FilterCharacteristics::none();
        let mut i: usize = 0;
        while i < filters.len()
            invariant
                i <= filters@.len(),
                r.literal_equality == exists|j: int|
                    0 <= j < i && has_eq_lit(#[trigger] esv[j]),
                r.like == exists|j: int| 0 <= j < i && has_like(#[trigger] esv[j]),
                r.is_null == exists|j: int| 0 <= j < i && has_is_null(#[trigger] esv[j], false),
                r.literal_inequality as int == (if count_ineq(esv.take(i as int)) > u64::MAX as int {
                    u64::MAX as int
                } else {
                    count_ineq(esv.take(i as int))
                }),
                r.any_filter == exists|j: int|
                    0 <= j < i && !has_is_not_null(#[trigger] esv[j], false),
            decreases filters@.len() - i,
        {
            proof {
                assert(rows_ok(filters@[i as int]));
                assert(esv[i as int] == filters@[i as int]@);
                assert(esv.take(i + 1).drop_last() =~= esv.take(i as int));
                assert(esv.take(i + 1).last() == esv[i as int]);
                lemma_count_ineq_bounds(esv.take(i as int));
            }
            let sub = filters[i].classify(false);
            if sub.0 {
                r.literal_equality = true;
            }
            if sub.1 {
                r.like = true;
            }
            if sub.2 {
                r.is_null = true;
            }
            if sub.4 && r.literal_inequality < u64::MAX {
                r.literal_inequality = r.literal_inequality + 1;
            }
            if !sub.3 {
                r.any_filter = true;
            }
            i = i + 1;
        }
        proof {
            assert(esv.take(esv.len() as int) =~= esv);
        }
        r
    }

    /// Records that a literal equality is known to hold.
    pub fn add_literal_equality(&mut self)
        ensures
            *final(self) == (FilterCharacteristics { literal_equality: true, ..*old(self) }),
    {
        self.literal_equality = true;
    }

    /// A short code naming the features present, one letter per feature.
    pub fn explain(&self) -> (r: String)
        ensures
            true,
    {
        let mut e = String::new();
        if self.literal_equality {
            e.append("e");
        }
        if self.like {
            e.append("l");
        }
        if self.is_null {
            e.append("n");
        }
        let mut i: u64 = 0;
        while i < self.literal_inequality
            decreases self.literal_inequality - i,
        {
            e.append("i");
            i = i + 1;
        }
        if self.any_filter {
            e.append("f");
        }
        e
    }

    /// A pessimistic multiplicative estimate of how much the filters narrow
    /// their input, as a fraction: the numerator over the denominator. The
    /// library holds no floating-point values, so callers divide where they
    /// need a scalar.
    pub fn worst_case_scaling_factor(&self) -> (r: (u64, u64))
        ensures
            r == self.worst_case_scaling_factor_spec(),
            r.1 > 0,
    {
        let d1: u64 = if self.literal_equality { 10 } else { 1 };
        let d2: u64 = if self.is_null { 10 } else { 1 };
        let nd3: (u64, u64) = if self.literal_inequality >= 2 {
            (1, 4)
        } else if self.literal_inequality == 1 {
            (33, 100)
        } else {
            (1, 1)
        };
        let nd4: (u64, u64) = if !(self.literal_equality || self.is_null
            || self.literal_inequality > 0) && self.any_filter {
            (9, 10)
        } else {
            (1, 1)
        };
        (nd3.0 * nd4.0, d1 * d2 * nd3.1 * nd4.1)
    }

    /// What `worst_case_scaling_factor` returns.
    pub open spec fn worst_case_scaling_factor_spec(self) -> (u64, u64) {
        let d1: u64 = if self.literal_equality {
            10
        } else {
            1
        };
        let d2: u64 = if self.is_null {
            10
        } else {
            1
        };
        let nd3: (u64, u64) = if self.literal_inequality >= 2 {
            (1u64, 4u64)
        } else if self.literal_inequality == 1 {
            (33u64, 100u64)
        } else {
            (1u64, 1u64)
        };
        let nd4: (u64, u64) = if !(self.literal_equality || self.is_null
            || self.literal_inequality > 0) && self.any_filter {
            (9u64, 10u64)
        } else {
            (1u64, 1u64)
        };
        ((nd3.0 * nd4.0) as u64, (d1 * d2 * nd3.1 * nd4.1) as u64)
    }
}

/// The inequality count never goes below zero nor above the list length.
proof fn lemma_count_ineq_bounds(es: Seq<ExprV>)
    ensures
        0 <= count_ineq(es) <= es.len(),
    decreases es.len(),
{
    if es.len() > 0 {
        lemma_count_ineq_bounds(es.drop_last());
    }
}

} // verus!
