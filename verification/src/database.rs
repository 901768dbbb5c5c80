//! Placeholder entry points of a direct database interface.  None of
//! them is wired to the store yet; each reports that it is not
//! implemented, as the interface is a scaffold kept for its callers.

use vstd::prelude::*;

use crate::errors::{ErrorV, QueryError, err_view};
use crate::store::ResultSet;
use crate::symbols::{Field, LiteralPosition, LiteralSelector, Position};
use crate::fp::Fp;

verus! {

/// All objects of a space: not wired to the store yet.
pub fn get_all(_space_id: &String) -> (r: Result<ResultSet, QueryError>)
    ensures
        r matches Err(e) && err_view(e) == ErrorV::NotImplemented,
{
    Err(QueryError::NotImplemented)
}

/// The objects within a box: not wired to the store yet.
pub fn get_by_bounding_box(_space_id: &String, _bounding_box: &Vec<LiteralPosition>) -> (r: Result<
    ResultSet,
    QueryError,
>)
    ensures
        r matches Err(e) && err_view(e) == ErrorV::NotImplemented,
{
    Err(QueryError::NotImplemented)
}

/// The objects at a position: not wired to the store yet.
pub fn get_by_position(_space_id: &String, _position: &LiteralPosition) -> (r: Result<
    ResultSet,
    QueryError,
>)
    ensures
        r matches Err(e) && err_view(e) == ErrorV::NotImplemented,
{
    Err(QueryError::NotImplemented)
}

/// A field lookup on a point: not wired to the store yet.
pub fn get(_point: &Object, _fields: &Vec<Field>) -> (r: Result<LiteralPosition, QueryError>)
    ensures
        r matches Err(e) && err_view(e) == ErrorV::NotImplemented,
{
    Err(QueryError::NotImplemented)
}

/// A placeholder handle on a stored point.
#[derive(PartialEq, Eq, Hash, Clone, Debug)]
pub struct Object {
    id: u32,
}

impl Object {
    /// The placeholder's squared length: zero, until lookups exist.
    pub fn length(&self) -> (r: Fp)
        ensures
            r.0 == crate::fp::FP_ZERO,
    {
        Fp(crate::fp::FP_ZERO)
    }

    /// Whether a predicate holds of the placeholder: never, until
    /// lookups exist.
    pub fn eval(&self, _predicate: &crate::symbols::Predicate) -> (r: bool)
        ensures
            r == false,
    {
        false
    }
}

impl Position {
    /// Resolve a position expression against a placeholder point: the
    /// literal where there is one, the empty position otherwise.
    pub fn eval(&self, point: &Object) -> (r: LiteralPosition)
        ensures
            *self matches Position::Literal(p) ==> r.0@ == p.0@,
            !(*self matches Position::Literal(_)) ==> r.0@.len() == 0,
    {
        match self {
            Position::StrCmpICase(_selector, _string) => LiteralPosition(Vec::new()),
            Position::StrCmp(_selector, _string) => LiteralPosition(Vec::new()),
            Position::Selector(selector) => selector.eval(point),
            Position::Literal(position) => position.duplicate(),
        }
    }
}

impl LiteralSelector {
    /// Resolve a selector against a placeholder point: empty, until
    /// lookups exist.
    pub fn eval(&self, point: &Object) -> (r: LiteralPosition)
        ensures
            r.0@.len() == 0,
    {
        match get(point, &self.0) {
            Err(_) => LiteralPosition(Vec::new()),
            Ok(p) => p,
        }
    }
}

} // verus!
