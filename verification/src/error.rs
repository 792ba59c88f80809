//! The closed taxonomy of runtime evaluation failures. Errors are data: a
//! literal may durably store one, and AND/OR pick the largest error under a
//! total order so that repeated evaluation is reproducible.

use vstd::prelude::*;

use crate::order::{lex_cmp_chars, cmp_chars_exec, Ord3};
use crate::datum::{chars_of, cmp_int};

verus! {

/// One end of a numeric domain, used by errors that report a domain violation.
#[derive(Clone, Copy, Debug, PartialEq, Eq, Structural)]
pub enum DomainLimit {
    Unbounded,
    Inclusive(i64),
    Exclusive(i64),
}

/// A runtime evaluation failure.
#[derive(Debug)]
pub enum EvalError {
    DivisionByZero,
    NumericFieldOverflow,
    Int16OutOfRange(i64),
    Int32OutOfRange(i64),
    Int64OutOfRange(i64),
    InvalidBase64EndSequence,
    InvalidHashAlgorithm(String),
    LikeEscapeTooLong,
    IncompatibleArrayDimensions { dims: Option<(u64, u64)> },
    MustNotBeNull(String),
    IfNullError(String),
    Internal(String),
}

/// The mathematical model of an `EvalError`.
#[verifier::ext_equal]
pub enum ErrV {
    DivisionByZero,
    NumericFieldOverflow,
    Int16OutOfRange(i64),
    Int32OutOfRange(i64),
    Int64OutOfRange(i64),
    InvalidBase64EndSequence,
    InvalidHashAlgorithm(Seq<char>),
    LikeEscapeTooLong,
    IncompatibleArrayDimensions { dims: Option<(u64, u64)> },
    MustNotBeNull(Seq<char>),
    IfNullError(Seq<char>),
    Internal(Seq<char>),
}

impl View for EvalError {
    type V = ErrV;

    open spec fn view(&self) -> ErrV {
        match self {
            EvalError::DivisionByZero => ErrV::DivisionByZero,
            EvalError::NumericFieldOverflow => ErrV::NumericFieldOverflow,
            EvalError::Int16OutOfRange(v) => ErrV::Int16OutOfRange(*v),
            EvalError::Int32OutOfRange(v) => ErrV::Int32OutOfRange(*v),
            EvalError::Int64OutOfRange(v) => ErrV::Int64OutOfRange(*v),
            EvalError::InvalidBase64EndSequence => ErrV::InvalidBase64EndSequence,
            EvalError::InvalidHashAlgorithm(s) => ErrV::InvalidHashAlgorithm(s@),
            EvalError::LikeEscapeTooLong => ErrV::LikeEscapeTooLong,
            EvalError::IncompatibleArrayDimensions { dims } => ErrV::IncompatibleArrayDimensions {
                dims: *dims,
            },
            EvalError::MustNotBeNull(s) => ErrV::MustNotBeNull(s@),
            EvalError::IfNullError(s) => ErrV::IfNullError(s@),
            EvalError::Internal(s) => ErrV::Internal(s@),
        }
    }
}

impl DeepView for EvalError {
    type V = ErrV;

    open spec fn deep_view(&self) -> ErrV {
        self.view()
    }
}

impl ErrV {
    /// The position of the variant in the taxonomy's total order.
    pub open spec fn rank(self) -> int {
        match self {
            ErrV::DivisionByZero => 0,
            ErrV::NumericFieldOverflow => 1,
            ErrV::Int16OutOfRange(_) => 2,
            ErrV::Int32OutOfRange(_) => 3,
            ErrV::Int64OutOfRange(_) => 4,
            ErrV::InvalidBase64EndSequence => 5,
            ErrV::InvalidHashAlgorithm(_) => 6,
            ErrV::LikeEscapeTooLong => 7,
            ErrV::IncompatibleArrayDimensions { .. } => 8,
            ErrV::MustNotBeNull(_) => 9,
            ErrV::IfNullError(_) => 10,
            ErrV::Internal(_) => 11,
        }
    }
}

/// Three-way comparison of optional dimension pairs.
pub open spec fn cmp_dims(a: Option<(u64, u64)>, b: Option<(u64, u64)>) -> Ord3 {
    match (a, b) {
        (Option::None, Option::None) => Ord3::Equal,
        (Option::None, Option::Some(_)) => Ord3::Less,
        (Option::Some(_), Option::None) => Ord3::Greater,
        (Option::Some(x), Option::Some(y)) => {
            if x.0 != y.0 {
                cmp_int(x.0 as int, y.0 as int)
            } else {
                cmp_int(x.1 as int, y.1 as int)
            }
        }
    }
}

/// The structural total order on errors: variants in declaration order,
/// then payloads.
pub open spec fn err_cmp_spec(a: ErrV, b: ErrV) -> Ord3 {
    if a.rank() < b.rank() {
        Ord3::Less
    } else if b.rank() < a.rank() {
        Ord3::Greater
    } else {
        match (a, b) {
            (ErrV::Int16OutOfRange(x), ErrV::Int16OutOfRange(y)) => cmp_int(x as int, y as int),
            (ErrV::Int32OutOfRange(x), ErrV::Int32OutOfRange(y)) => cmp_int(x as int, y as int),
            (ErrV::Int64OutOfRange(x), ErrV::Int64OutOfRange(y)) => cmp_int(x as int, y as int),
            (ErrV::InvalidHashAlgorithm(x), ErrV::InvalidHashAlgorithm(y)) => lex_cmp_chars(x, y),
            (
                ErrV::IncompatibleArrayDimensions { dims: x },
                ErrV::IncompatibleArrayDimensions { dims: y },
            ) => cmp_dims(x, y),
            (ErrV::MustNotBeNull(x), ErrV::MustNotBeNull(y)) => lex_cmp_chars(x, y),
            (ErrV::IfNullError(x), ErrV::IfNullError(y)) => lex_cmp_chars(x, y),
            (ErrV::Internal(x), ErrV::Internal(y)) => lex_cmp_chars(x, y),
            _ => Ord3::Equal,
        }
    }
}

/// Non-strict order on errors.
pub open spec fn err_le(a: ErrV, b: ErrV) -> bool {
    err_cmp_spec(a, b) != Ord3::Greater
}

/// The error comparison returns `Equal` exactly on equal errors.
pub proof fn lemma_err_cmp_eq(a: ErrV, b: ErrV)
    ensures
        err_cmp_spec(a, b) == Ord3::Equal <==> a == b,
{
    if a.rank() == b.rank() {
        match (a, b) {
            (ErrV::InvalidHashAlgorithm(x), ErrV::InvalidHashAlgorithm(y)) => {
                crate::order::lemma_lex_cmp_chars_eq(x, y);
            }
            (ErrV::MustNotBeNull(x), ErrV::MustNotBeNull(y)) => {
                crate::order::lemma_lex_cmp_chars_eq(x, y);
            }
            (ErrV::IfNullError(x), ErrV::IfNullError(y)) => {
                crate::order::lemma_lex_cmp_chars_eq(x, y);
            }
            (ErrV::Internal(x), ErrV::Internal(y)) => {
                crate::order::lemma_lex_cmp_chars_eq(x, y);
            }
            _ => {}
        }
    }
}

/// The order on errors is total: any two errors are comparable.
pub proof fn lemma_err_le_connex(a: ErrV, b: ErrV)
    ensures
        err_le(a, b) || err_le(b, a),
{
    if a.rank() == b.rank() {
        match (a, b) {
            (ErrV::InvalidHashAlgorithm(x), ErrV::InvalidHashAlgorithm(y)) => {
                crate::order::lemma_lex_cmp_chars_antisym(x, y);
            }
            (ErrV::MustNotBeNull(x), ErrV::MustNotBeNull(y)) => {
                crate::order::lemma_lex_cmp_chars_antisym(x, y);
            }
            (ErrV::IfNullError(x), ErrV::IfNullError(y)) => {
                crate::order::lemma_lex_cmp_chars_antisym(x, y);
            }
            (ErrV::Internal(x), ErrV::Internal(y)) => {
                crate::order::lemma_lex_cmp_chars_antisym(x, y);
            }
            _ => {}
        }
    }
}

/// Two errors below each other are equal.
pub proof fn lemma_err_le_antisym(a: ErrV, b: ErrV)
    requires
        err_le(a, b),
        err_le(b, a),
    ensures
        a == b,
{
    lemma_err_cmp_eq(a, b);
    lemma_err_cmp_eq(b, a);
    if a.rank() == b.rank() {
        match (a, b) {
            (ErrV::InvalidHashAlgorithm(x), ErrV::InvalidHashAlgorithm(y)) => {
                crate::order::lemma_lex_cmp_chars_antisym(x, y);
            }
            (ErrV::MustNotBeNull(x), ErrV::MustNotBeNull(y)) => {
                crate::order::lemma_lex_cmp_chars_antisym(x, y);
            }
            (ErrV::IfNullError(x), ErrV::IfNullError(y)) => {
                crate::order::lemma_lex_cmp_chars_antisym(x, y);
            }
            (ErrV::Internal(x), ErrV::Internal(y)) => {
                crate::order::lemma_lex_cmp_chars_antisym(x, y);
            }
            _ => {}
        }
    }
}

/// The order on errors is transitive.
pub proof fn lemma_err_le_trans(a: ErrV, b: ErrV, c: ErrV)
    requires
        err_le(a, b),
        err_le(b, c),
    ensures
        err_le(a, c),
{
    if a.rank() == b.rank() && b.rank() == c.rank() {
        match (a, b, c) {
            (
                ErrV::InvalidHashAlgorithm(x),
                ErrV::InvalidHashAlgorithm(y),
                ErrV::InvalidHashAlgorithm(z),
            ) => {
                crate::order::lemma_lex_cmp_chars_trans(x, y, z);
            }
            (ErrV::MustNotBeNull(x), ErrV::MustNotBeNull(y), ErrV::MustNotBeNull(z)) => {
                crate::order::lemma_lex_cmp_chars_trans(x, y, z);
            }
            (ErrV::IfNullError(x), ErrV::IfNullError(y), ErrV::IfNullError(z)) => {
                crate::order::lemma_lex_cmp_chars_trans(x, y, z);
            }
            (ErrV::Internal(x), ErrV::Internal(y), ErrV::Internal(z)) => {
                crate::order::lemma_lex_cmp_chars_trans(x, y, z);
            }
            _ => {}
        }
    }
}

/// The larger of two errors.
pub open spec fn err_max2(a: ErrV, b: ErrV) -> ErrV {
    if err_le(a, b) {
        b
    } else {
        a
    }
}

/// The largest error of a nonempty sequence.
pub open spec fn seq_max_err(s: Seq<ErrV>) -> ErrV
    recommends
        s.len() > 0,
    decreases s.len(),
{
    if s.len() <= 1 {
        s[0]
    } else {
        err_max2(seq_max_err(s.drop_last()), s.last())
    }
}

/// The largest error of a nonempty sequence is one of its members and
/// bounds every member.
pub proof fn lemma_seq_max_err_props(s: Seq<ErrV>)
    requires
        s.len() > 0,
    ensures
        s.contains(seq_max_err(s)),
        forall|i: int| 0 <= i < s.len() ==> err_le(#[trigger] s[i], seq_max_err(s)),
    decreases s.len(),
{
    let m = seq_max_err(s);
    if s.len() <= 1 {
        lemma_err_le_connex(s[0], s[0]);
        assert(s.contains(s[0]));
    } else {
        let rest = s.drop_last();
        let x = s.last();
        lemma_seq_max_err_props(rest);
        let mr = seq_max_err(rest);
        lemma_err_le_connex(mr, x);
        lemma_err_le_connex(x, x);
        if err_le(mr, x) {
            assert(m == x);
            assert(s.contains(x)) by {
                assert(s[s.len() - 1] == x);
            }
            assert forall|i: int| 0 <= i < s.len() implies err_le(#[trigger] s[i], m) by {
                if i < s.len() - 1 {
                    assert(rest[i] == s[i]);
                    lemma_err_le_trans(s[i], mr, x);
                }
            }
        } else {
            assert(m == mr);
            assert(rest.contains(mr));
            let j = choose|j: int| 0 <= j < rest.len() && rest[j] == mr;
            assert(s[j] == mr);
            assert(s.contains(m));
            assert forall|i: int| 0 <= i < s.len() implies err_le(#[trigger] s[i], m) by {
                if i < s.len() - 1 {
                    assert(rest[i] == s[i]);
                } else {
                    assert(s[i] == x);
                }
            }
        }
    }
}

/// Appending one error takes the maximum of the old largest and the new
/// element.
pub proof fn lemma_seq_max_err_push(s: Seq<ErrV>, x: ErrV)
    requires
        s.len() > 0,
    ensures
        seq_max_err(s.push(x)) == err_max2(seq_max_err(s), x),
{
    assert(s.push(x).drop_last() =~= s);
    assert(s.push(x).last() == x);
}

/// Sequences with the same members have the same largest error.
pub proof fn lemma_seq_max_err_same_members(s1: Seq<ErrV>, s2: Seq<ErrV>)
    requires
        s1.len() > 0,
        s2.len() > 0,
        forall|e: ErrV| s1.contains(e) <==> s2.contains(e),
    ensures
        seq_max_err(s1) == seq_max_err(s2),
{
    lemma_seq_max_err_props(s1);
    lemma_seq_max_err_props(s2);
    let m1 = seq_max_err(s1);
    let m2 = seq_max_err(s2);
    assert(s2.contains(m1));
    assert(s1.contains(m2));
    let i1 = choose|i: int| 0 <= i < s1.len() && s1[i] == m2;
    let i2 = choose|i: int| 0 <= i < s2.len() && s2[i] == m1;
    assert(err_le(m2, m1));
    assert(err_le(m1, m2));
    lemma_err_le_antisym(m1, m2);
}

impl EvalError {
    /// An owned copy of the error, equal to the original in the model.
    pub fn duplicate(&self) -> (r: EvalError)
        ensures
            r@ == self@,
    {
        match self {
            EvalError::DivisionByZero => EvalError::DivisionByZero,
            EvalError::NumericFieldOverflow => EvalError::NumericFieldOverflow,
            EvalError::Int16OutOfRange(v) => EvalError::Int16OutOfRange(*v),
            EvalError::Int32OutOfRange(v) => EvalError::Int32OutOfRange(*v),
            EvalError::Int64OutOfRange(v) => EvalError::Int64OutOfRange(*v),
            EvalError::InvalidBase64EndSequence => EvalError::InvalidBase64EndSequence,
            EvalError::InvalidHashAlgorithm(s) => EvalError::InvalidHashAlgorithm(s.clone()),
            EvalError::LikeEscapeTooLong => EvalError::LikeEscapeTooLong,
            EvalError::IncompatibleArrayDimensions { dims } => {
                EvalError::IncompatibleArrayDimensions { dims: *dims }
            }
            EvalError::MustNotBeNull(s) => EvalError::MustNotBeNull(s.clone()),
            EvalError::IfNullError(s) => EvalError::IfNullError(s.clone()),
            EvalError::Internal(s) => EvalError::Internal(s.clone()),
        }
    }

    /// Three-way comparison in the taxonomy's total order.
    pub fn cmp_err(&self, other: &EvalError) -> (r: Ord3)
        ensures
            r == err_cmp_spec(self@, other@),
    {
        match (self, other) {
            (EvalError::Int16OutOfRange(x), EvalError::Int16OutOfRange(y)) => cmp_i64(*x, *y),
            (EvalError::Int32OutOfRange(x), EvalError::Int32OutOfRange(y)) => cmp_i64(*x, *y),
            (EvalError::Int64OutOfRange(x), EvalError::Int64OutOfRange(y)) => cmp_i64(*x, *y),
            (EvalError::InvalidHashAlgorithm(x), EvalError::InvalidHashAlgorithm(y)) => {
                cmp_strings(x, y)
            }
            (
                EvalError::IncompatibleArrayDimensions { dims: x },
                EvalError::IncompatibleArrayDimensions { dims: y },
            ) => {
                match (x, y) {
                    (Option::None, Option::None) => Ord3::Equal,
                    (Option::None, Option::Some(_)) => Ord3::Less,
                    (Option::Some(_), Option::None) => Ord3::Greater,
                    (Option::Some(p), Option::Some(q)) => {
                        if p.0 != q.0 {
                            if p.0 < q.0 { Ord3::Less } else { Ord3::Greater }
                        } else {
                            if p.1 < q.1 { Ord3::Less } else if q.1 < p.1 { Ord3::Greater }
                            else { Ord3::Equal }
                        }
                    }
                }
            }
            (EvalError::MustNotBeNull(x), EvalError::MustNotBeNull(y)) => cmp_strings(x, y),
            (EvalError::IfNullError(x), EvalError::IfNullError(y)) => cmp_strings(x, y),
            (EvalError::Internal(x), EvalError::Internal(y)) => cmp_strings(x, y),
            _ => {
                let ra = self.rank_exec();
                let rb = other.rank_exec();
                if ra < rb { Ord3::Less } else if rb < ra { Ord3::Greater } else { Ord3::Equal }
            }
        }
    }

    /// Whether two errors are equal in the model.
    pub fn eq_err(&self, other: &EvalError) -> (r: bool)
        ensures
            r == (self@ == other@),
    {
        proof {
            lemma_err_cmp_eq(self@, other@);
        }
        matches!(self.cmp_err(other), Ord3::Equal)
    }

    /// The larger of two errors, consuming both.
    pub fn max_err(self, other: EvalError) -> (r: EvalError)
        ensures
            r@ == err_max2(self@, other@),
    {
        match self.cmp_err(&other) {
            Ord3::Greater => self,
            _ => other,
        }
    }

    /// The position of the variant in the taxonomy's total order.
    fn rank_exec(&self) -> (r: u8)
        ensures
            r as int == self@.rank(),
    {
        match self {
            EvalError::DivisionByZero => 0,
            EvalError::NumericFieldOverflow => 1,
            EvalError::Int16OutOfRange(_) => 2,
            EvalError::Int32OutOfRange(_) => 3,
            EvalError::Int64OutOfRange(_) => 4,
            EvalError::InvalidBase64EndSequence => 5,
            EvalError::InvalidHashAlgorithm(_) => 6,
            EvalError::LikeEscapeTooLong => 7,
            EvalError::IncompatibleArrayDimensions { .. } => 8,
            EvalError::MustNotBeNull(_) => 9,
            EvalError::IfNullError(_) => 10,
            EvalError::Internal(_) => 11,
        }
    }
}

/// Three-way comparison of two signed integers.
fn cmp_i64(x: i64, y: i64) -> (r: Ord3)
    ensures
        r == cmp_int(x as int, y as int),
{
    if x < y {
        Ord3::Less
    } else if y < x {
        Ord3::Greater
    } else {
        Ord3::Equal
    }
}

/// Three-way lexicographic comparison of two strings.
fn cmp_strings(x: &String, y: &String) -> (r: Ord3)
    ensures
        r == lex_cmp_chars(x@, y@),
{
    let xc = chars_of(x.as_str());
    let yc = chars_of(y.as_str());
    cmp_chars_exec(&xc, &yc)
}

} // verus!
