//! Query front-end and evaluation engine for a volumetric spatial index.
//!
//! The crate parses a small expression language describing regions of
//! space, set operations over spatial objects and filtering predicates,
//! then type-checks, cost-estimates and executes those expressions
//! against an in-memory spatial store.

use vstd::prelude::*;

mod database;
mod errors;
mod evaluators;
mod executors;
mod expressions;
mod fp;
mod laws;
mod predictors;
pub mod queries;
mod space;
mod store;
mod strings;
mod symbols;
mod types;
mod validators;

pub use database::{Object, get, get_all, get_by_bounding_box, get_by_position};
pub use errors::QueryError;
pub use executors::{CoreQueryParameters, check_executable, check_pred, check_predictable};
pub use expressions::{Evaluator, Executor, Predictor, Validator};
pub use fp::Fp;
pub use laws::{
    count_in_space, lemma_distinct_idempotent, lemma_execute_distinct_idempotent,
    lemma_execute_intersection_membership, lemma_inside_outside_disjoint,
    lemma_intersect_membership, lemma_intersection_space_mismatch, lemma_union_counts,
    lemma_union_space_mismatch, lemma_validate_implies_predictable, reports_position, shell_ok,
    sphere_dims_ok,
};
pub use queries::{FiltersParser, ParseError, QueryParser};
pub use space::{bounding_box, get_filter, get_type, max_volume};
pub use store::{Obj, Properties, ResultSet, Space, Store, StoredObject};
pub use symbols::{
    Aggregation, Bag, Field, JsonValue, LiteralNumber, LiteralPosition, LiteralSelector, Position,
    Predicate, Projection, Shape,
};
pub use types::LiteralTypes;
pub use validators::ValidationResult;

verus! {

/// The name of the default reference space every store is expected to
/// know about.
pub fn name() -> (r: String)
    ensures
        r@ == "Universe"@,
{
    String::from_str("Universe")
}

} // verus!
