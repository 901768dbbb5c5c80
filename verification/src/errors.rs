//! The error taxonomy of validation, prediction and execution.
//!
//! Errors are structured values rather than formatted messages, so that
//! contracts can state exactly which error each input produces; turning
//! one into a human-readable line is the caller's business.

use vstd::prelude::*;

use crate::types::{LiteralTypes, TypeV, type_view};

verus! {

/// An error of validation, prediction or execution.
#[derive(Debug)]
pub enum QueryError {
    /// The operands of an intersection or union report different
    /// reference spaces (left, right).
    SpaceMismatch(String, String),
    /// The operands' value types do not match under the coercion rule
    /// (left, right).
    TypeMismatch(LiteralTypes, LiteralTypes),
    /// The two corners of a rectangle differ in type (first, second).
    CornerTypeMismatch(LiteralTypes, LiteralTypes),
    /// A construct of the grammar the engine does not implement:
    /// `nifti` projections and shapes, and rectangles of other than two
    /// corners.
    NotImplemented,
    /// An `inside` query over the unsupported `nifti` shape.
    InsideNifti,
    /// An `outside` query over the unsupported `nifti` shape.
    OutsideNifti,
    /// A `nifti` projection.
    ProjectionNifti,
    /// A rectangle query whose corner count is not two.
    UnsupportedCorners(usize),
    /// A space identifier the store does not know.
    UnknownSpace(String),
    /// A core identifier the store does not know.
    UnknownCore(String),
    /// A position whose dimension differs from its space's.
    DimensionMismatch(String, usize, usize),
}

/// The mathematical shape of a `QueryError`.
#[verifier::ext_equal]
pub ghost enum ErrorV {
    SpaceMismatch(Seq<char>, Seq<char>),
    TypeMismatch(TypeV, TypeV),
    CornerTypeMismatch(TypeV, TypeV),
    NotImplemented,
    InsideNifti,
    OutsideNifti,
    ProjectionNifti,
    UnsupportedCorners(nat),
    UnknownSpace(Seq<char>),
    UnknownCore(Seq<char>),
    DimensionMismatch(Seq<char>, nat, nat),
}

/// The view of an error as its mathematical shape.
pub open spec fn err_view(e: QueryError) -> ErrorV {
    match e {
        QueryError::SpaceMismatch(l, r) => ErrorV::SpaceMismatch(l@, r@),
        QueryError::TypeMismatch(l, r) => ErrorV::TypeMismatch(type_view(l), type_view(r)),
        QueryError::CornerTypeMismatch(l, r) => ErrorV::CornerTypeMismatch(
            type_view(l),
            type_view(r),
        ),
        QueryError::NotImplemented => ErrorV::NotImplemented,
        QueryError::InsideNifti => ErrorV::InsideNifti,
        QueryError::OutsideNifti => ErrorV::OutsideNifti,
        QueryError::ProjectionNifti => ErrorV::ProjectionNifti,
        QueryError::UnsupportedCorners(n) => ErrorV::UnsupportedCorners(n as nat),
        QueryError::UnknownSpace(s) => ErrorV::UnknownSpace(s@),
        QueryError::UnknownCore(s) => ErrorV::UnknownCore(s@),
        QueryError::DimensionMismatch(s, a, b) => ErrorV::DimensionMismatch(
            s@,
            a as nat,
            b as nat,
        ),
    }
}

} // verus!
