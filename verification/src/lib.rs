//! Scalar expressions for a SQL query engine: a typed value model, a
//! recursive expression tree, an evaluator with three-valued boolean logic,
//! type and nullability inference, an algebraic simplifier, and a classifier
//! that scores filter predicates for join ordering.

use vstd::prelude::*;

pub mod cmp;
pub mod codec;
pub mod datum;
pub mod bootstrap;
pub mod error;
pub mod filter;
pub mod func;
pub mod like;
pub mod scalar;
pub mod order;
pub mod reduce;
pub mod trusted;

verus! {

/// A scalar type together with a nullability flag is a column type; the
/// bare scalar types the value model covers.
#[derive(Clone, Copy, Debug, PartialEq, Eq, Hash, Structural)]
pub enum ScalarType {
    Bool,
    Int16,
    Int32,
    Int64,
    String,
    Bytes,
}

/// A scalar type plus whether a value of it may be NULL.
#[derive(Clone, Copy, Debug, PartialEq, Eq, Hash, Structural)]
pub struct ColumnType {
    pub scalar_type: ScalarType,
    pub nullable: bool,
}

impl ScalarType {
    /// Attaches a nullability flag to this scalar type.
    pub fn nullable(self, nullable: bool) -> (r: ColumnType)
        ensures
            r == (ColumnType { scalar_type: self, nullable }),
    {
        ColumnType { scalar_type: self, nullable }
    }
}

impl ColumnType {
    /// The union of two column types: defined when the scalar types agree,
    /// and nullable when either side is.
    pub fn union(&self, other: &ColumnType) -> (r: Option<ColumnType>)
        ensures
            r == self.union_spec(*other),
    {
        if self.scalar_type == other.scalar_type {
            Some(ColumnType {
                scalar_type: self.scalar_type,
                nullable: self.nullable || other.nullable,
            })
        } else {
            None
        }
    }

    /// What `union` returns.
    pub open spec fn union_spec(self, other: ColumnType) -> Option<ColumnType> {
        if self.scalar_type == other.scalar_type {
            Some(ColumnType {
                scalar_type: self.scalar_type,
                nullable: self.nullable || other.nullable,
            })
        } else {
            None
        }
    }
}

} // verus!
