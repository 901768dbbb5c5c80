//! The type validator: a recursive type check over the expression tree.
//!
//! Cross-space set operations are rejected, operand types must agree
//! under the one-directional coercion rule, rectangles must have
//! exactly two corners of one type, and the unimplemented constructs
//! are turned away.  The first failure aborts the walk.

use vstd::prelude::*;

use crate::errors::{ErrorV, QueryError, err_view};
use crate::symbols::{Bag, LiteralPosition, LiteralSelector, Projection, Shape};
use crate::symbols::{bag_space, get_type, pos_type};
use crate::types::{LiteralTypes, TypeV, accepts, type_view};

verus! {

/// What validation returns: the expression's value type, or the first
/// error found.
pub type ValidationResult = Result<LiteralTypes, QueryError>;

/// The view of a validation result.
pub open spec fn vres_view(r: ValidationResult) -> Result<TypeV, ErrorV> {
    match r {
        Ok(t) => Ok(type_view(t)),
        Err(e) => Err(err_view(e)),
    }
}

/// The placeholder type the validator falls back on where the data
/// model gives it nothing better: a vector of three binary64 values.
pub open spec fn placeholder_type() -> TypeV {
    TypeV::Vector(seq![TypeV::Float, TypeV::Float, TypeV::Float])
}

/// The type a shape validates to, or the error that rejects it.  A
/// rectangle must have exactly two corners (any other arity is an
/// explicit scope limit, not a defect) whose types agree under the
/// coercion rule; the `Nifti` placeholder is unimplemented; a label
/// lookup carries no structural type of its own and falls back on the
/// placeholder.
pub open spec fn spec_validate_shape(s: Shape) -> Result<TypeV, ErrorV> {
    match s {
        Shape::Point(_, v) => Ok(pos_type(v.0@)),
        Shape::HyperRectangle(_, pos) => {
            if pos@.len() != 2 {
                Err(ErrorV::NotImplemented)
            } else {
                let first = pos_type(pos[0].0@);
                let second = pos_type(pos[1].0@);
                if !accepts(first, second) {
                    Err(ErrorV::CornerTypeMismatch(first, second))
                } else {
                    Ok(first)
                }
            }
        },
        Shape::HyperSphere(_, pos, _) => Ok(pos_type(pos.0@)),
        Shape::Label(_, _) => Ok(placeholder_type()),
        Shape::Nifti(_) => Err(ErrorV::NotImplemented),
    }
}

/// The type a bag validates to, or the first error of the walk.
/// Intersections and unions demand operands of one space, then of one
/// type under the coercion rule, the left operand validated first; a
/// bag list validates every element in order and reports the
/// placeholder type; a filter with no inner bag stands for a scan of
/// the universe box and reports the placeholder type as well.
pub open spec fn spec_validate_bag(b: Bag) -> Result<TypeV, ErrorV>
    decreases b,
{
    match b {
        Bag::ViewPort(bag) => spec_validate_bag(*bag),
        Bag::Distinct(bag) => spec_validate_bag(*bag),
        Bag::Filter(_, Some(bag)) => spec_validate_bag(*bag),
        Bag::Filter(_, None) => Ok(placeholder_type()),
        Bag::Complement(bag) => spec_validate_bag(*bag),
        Bag::Intersection(lh, rh) => if bag_space(*lh) != bag_space(*rh) {
            Err(ErrorV::SpaceMismatch(bag_space(*lh), bag_space(*rh)))
        } else {
            match spec_validate_bag(*lh) {
                Err(e) => Err(e),
                Ok(tl) => match spec_validate_bag(*rh) {
                    Err(e) => Err(e),
                    Ok(tr) => if !accepts(tl, tr) {
                        Err(ErrorV::TypeMismatch(tl, tr))
                    } else {
                        Ok(tl)
                    },
                },
            }
        },
        Bag::Union(lh, rh) => if bag_space(*lh) != bag_space(*rh) {
            Err(ErrorV::SpaceMismatch(bag_space(*lh), bag_space(*rh)))
        } else {
            match spec_validate_bag(*lh) {
                Err(e) => Err(e),
                Ok(tl) => match spec_validate_bag(*rh) {
                    Err(e) => Err(e),
                    Ok(tr) => if !accepts(tl, tr) {
                        Err(ErrorV::TypeMismatch(tl, tr))
                    } else {
                        Ok(tl)
                    },
                },
            }
        },
        Bag::Bag(bags) => match spec_validate_bags(bags@) {
            Some(e) => Err(e),
            None => Ok(placeholder_type()),
        },
        Bag::Inside(shape) => spec_validate_shape(shape),
        Bag::Outside(shape) => spec_validate_shape(shape),
    }
}

/// The check both set operations share, written out in
/// `spec_validate_bag`: operands of one space, validated left first,
/// the left type accepting the right; the common type is the left one.
pub open spec fn spec_validate_pair(lh: Bag, rh: Bag) -> Result<TypeV, ErrorV> {
    if bag_space(lh) != bag_space(rh) {
        Err(ErrorV::SpaceMismatch(bag_space(lh), bag_space(rh)))
    } else {
        match spec_validate_bag(lh) {
            Err(e) => Err(e),
            Ok(tl) => match spec_validate_bag(rh) {
                Err(e) => Err(e),
                Ok(tr) => if !accepts(tl, tr) {
                    Err(ErrorV::TypeMismatch(tl, tr))
                } else {
                    Ok(tl)
                },
            },
        }
    }
}

/// The first error of a bag list, in order; `None` when every bag
/// validates.
pub open spec fn spec_validate_bags(bags: Seq<Bag>) -> Option<ErrorV>
    decreases bags,
{
    if bags.len() == 0 {
        None
    } else {
        match spec_validate_bags(bags.drop_last()) {
            Some(e) => Some(e),
            None => match spec_validate_bag(bags.last()) {
                Err(e) => Some(e),
                Ok(_) => None,
            },
        }
    }
}

/// After a clean prefix, the first failing bag decides the list.
proof fn lemma_bags_first_error(bags: Seq<Bag>, i: int, e: ErrorV)
    requires
        0 <= i < bags.len(),
        spec_validate_bags(bags.take(i)) is None,
        spec_validate_bag(bags[i]) == Err::<TypeV, ErrorV>(e),
    ensures
        spec_validate_bags(bags) == Some(e),
    decreases bags.len(),
{
    if bags.len() == i + 1 {
        assert(bags.drop_last() =~= bags.take(i));
        assert(bags.last() == bags[i]);
    } else {
        assert(bags.drop_last().take(i) =~= bags.take(i));
        assert(bags.drop_last()[i] == bags[i]);
        lemma_bags_first_error(bags.drop_last(), i, e);
    }
}

/// The type a projection validates to: the `Nifti` form is
/// unimplemented, the JSON form validates its bag (the JSON value
/// language is not checked yet).
pub open spec fn spec_validate_projection(p: Projection) -> Result<TypeV, ErrorV> {
    match p {
        Projection::Nifti(_, _, _) => Err(ErrorV::NotImplemented),
        Projection::JSON(_, _, bag) => spec_validate_bag(bag),
    }
}

impl Shape {
    /// Validate the shape (see `spec_validate_shape`).
    pub fn validate(&self) -> (r: ValidationResult)
        ensures
            vres_view(r) == spec_validate_shape(*self),
    {
        match self {
            Shape::Point(_, v) => Ok(v.get_type()),
            Shape::HyperRectangle(_, pos) => {
                if pos.len() != 2 {
                    Err(QueryError::NotImplemented)
                } else {
                    let first = pos[0].get_type();
                    let second = pos[1].get_type();
                    if !first.accepts_type(&second) {
                        Err(QueryError::CornerTypeMismatch(first, second))
                    } else {
                        Ok(first)
                    }
                }
            },
            Shape::HyperSphere(_, pos, _) => Ok(pos.get_type()),
            Shape::Label(_, _) => Ok(get_type()),
            Shape::Nifti(_) => Err(QueryError::NotImplemented),
        }
    }
}

impl Bag {
    /// Validate the bag (see `spec_validate_bag`).
    #[verifier::loop_isolation(false)]
    pub fn validate(&self) -> (r: ValidationResult)
        ensures
            vres_view(r) == spec_validate_bag(*self),
        decreases *self, 1int,
    {
        match self {
            Bag::ViewPort(bag) => bag.validate(),
            Bag::Distinct(bag) => bag.validate(),
            Bag::Filter(_, Some(bag)) => bag.validate(),
            Bag::Filter(_, None) => Ok(get_type()),
            Bag::Complement(bag) => bag.validate(),
            Bag::Intersection(lh, rh) => validate_pair(self),
            Bag::Union(lh, rh) => validate_pair(self),
            Bag::Bag(bags) => {
                let mut i: usize = 0;
                while i < bags.len()
                    invariant
                        0 <= i <= bags@.len(),
                        spec_validate_bags(bags@.take(i as int)) is None,
                    decreases bags@.len() - i,
                {
                    proof {
                        assert(decreases_to!(*bags => bags@));
                        assert(decreases_to!(bags@ => bags@[i as int]));
                    }
                    match bags[i].validate() {
                        Err(e) => {
                            proof {
                                lemma_bags_first_error(bags@, i as int, err_view(e));
                            }
                            return Err(e);
                        },
                        Ok(_) => {},
                    }
                    proof {
                        assert(bags@.take(i + 1).drop_last() =~= bags@.take(i as int));
                        assert(bags@.take(i + 1).last() == bags@[i as int]);
                    }
                    i = i + 1;
                }
                proof {
                    assert(bags@.take(bags@.len() as int) =~= bags@);
                }
                Ok(get_type())
            },
            Bag::Inside(shape) => shape.validate(),
            Bag::Outside(shape) => shape.validate(),
        }
    }
}

/// Validate the two operands of a set operation (see
/// `spec_validate_pair`).
fn validate_pair(b: &Bag) -> (r: ValidationResult)
    requires
        b matches Bag::Intersection(_, _) || b matches Bag::Union(_, _),
    ensures
        b matches Bag::Intersection(lh, rh) ==> vres_view(r) == spec_validate_pair(**lh, **rh),
        b matches Bag::Union(lh, rh) ==> vres_view(r) == spec_validate_pair(**lh, **rh),
    decreases *b, 0int,
{
    let (lh, rh) = match b {
        Bag::Intersection(lh, rh) => (lh, rh),
        Bag::Union(lh, rh) => (lh, rh),
        _ => unreached(),
    };
    let ls = lh.space();
    let rs = rh.space();
    if !crate::strings::str_eq(ls, rs) {
        return Err(QueryError::SpaceMismatch(String::from_str(ls), String::from_str(rs)));
    }
    let tl = match lh.validate() {
        Err(e) => {
            return Err(e);
        },
        Ok(tl) => tl,
    };
    let tr = match rh.validate() {
        Err(e) => {
            return Err(e);
        },
        Ok(tr) => tr,
    };
    if !tl.accepts_type(&tr) {
        Err(QueryError::TypeMismatch(tl, tr))
    } else {
        Ok(tl)
    }
}

impl Projection {
    /// Validate the projection (see `spec_validate_projection`).
    pub fn validate(&self) -> (r: ValidationResult)
        ensures
            vres_view(r) == spec_validate_projection(*self),
    {
        match self {
            Projection::Nifti(_, _, _) => Err(QueryError::NotImplemented),
            Projection::JSON(_, _, bag) => bag.validate(),
        }
    }
}

impl LiteralPosition {
    /// Validate a literal position: its structural type, always.
    pub fn validate(&self) -> (r: ValidationResult)
        ensures
            vres_view(r) == Ok::<TypeV, ErrorV>(pos_type(self.0@)),
    {
        Ok(self.get_type())
    }
}

impl LiteralSelector {
    /// Validate a selector: the type it is assumed to produce, always.
    pub fn validate(&self) -> (r: ValidationResult)
        ensures
            vres_view(r) == Ok::<TypeV, ErrorV>(TypeV::Int),
    {
        Ok(self.get_type())
    }
}

} // verus!
