//! The cost predictor: a heuristic volume estimate for each node, used
//! only to order set operations during execution, never for
//! correctness.
//!
//! A complement weighs as its space's total volume less its operand's
//! estimate; an intersection cannot exceed its smaller operand; a union
//! weighs as the sum of both sides, deliberately double-counting
//! overlap; a filter with no inner bag stands for a scan of the
//! universe.  Prediction failure (an unknown space) is an error the
//! caller may fall back from; it never decides a query's results.

use vstd::prelude::*;

use crate::errors::{ErrorV, QueryError, err_view};
use crate::fp;
use crate::fp::{Fp, fp_add, fp_sub, fp_lt};
use crate::store::{Store, find_space};
use crate::symbols::{Bag, Projection, Shape};
use crate::symbols::{bag_space, shape_space, shape_volume, volume_wf};

verus! {

/// The view of a prediction result.
pub open spec fn pres_view(r: Result<Fp, QueryError>) -> Result<u64, ErrorV> {
    match r {
        Ok(v) => Ok(v.0),
        Err(e) => Err(err_view(e)),
    }
}

/// The total volume of the named space, or the unknown-space error.
pub open spec fn spec_space_volume(st: Store, name: Seq<char>) -> Result<u64, ErrorV> {
    match find_space(st.spaces@, name) {
        Some(i) => Ok(st.spaces@[i].volume.0),
        None => Err(ErrorV::UnknownSpace(name)),
    }
}

/// The predicted volume of a bag, or the first prediction error.
pub open spec fn spec_predict_bag(b: Bag, st: Store) -> Result<u64, ErrorV>
    decreases b,
{
    match b {
        Bag::ViewPort(bag) => spec_predict_bag(*bag, st),
        Bag::Distinct(bag) => spec_predict_bag(*bag, st),
        Bag::Filter(_, Some(bag)) => spec_predict_bag(*bag, st),
        Bag::Filter(_, None) => spec_space_volume(st, "Universe"@),
        Bag::Complement(bag) => match spec_space_volume(st, bag_space(*bag)) {
            Err(e) => Err(e),
            Ok(total) => match spec_predict_bag(*bag, st) {
                Err(e) => Err(e),
                Ok(v) => Ok(fp_sub(total, v)),
            },
        },
        Bag::Intersection(lh, rh) => match spec_predict_bag(*lh, st) {
            Err(e) => Err(e),
            Ok(l) => match spec_predict_bag(*rh, st) {
                Err(e) => Err(e),
                Ok(r) => Ok(
                    if fp_lt(l, r) {
                        l
                    } else {
                        r
                    },
                ),
            },
        },
        Bag::Union(lh, rh) => match spec_predict_bag(*lh, st) {
            Err(e) => Err(e),
            Ok(l) => match spec_predict_bag(*rh, st) {
                Err(e) => Err(e),
                Ok(r) => Ok(fp_add(l, r)),
            },
        },
        Bag::Bag(bags) => spec_predict_bags(bags@, st),
        Bag::Inside(shape) => Ok(shape_volume(shape)),
        Bag::Outside(shape) => match spec_space_volume(st, shape_space(shape)) {
            Err(e) => Err(e),
            Ok(total) => Ok(fp_sub(total, shape_volume(shape))),
        },
    }
}

/// The sum of the predicted volumes of a bag list, accumulated left to
/// right from 0.0, or the first error.
pub open spec fn spec_predict_bags(bags: Seq<Bag>, st: Store) -> Result<u64, ErrorV>
    decreases bags,
{
    if bags.len() == 0 {
        Ok(crate::fp::FP_ZERO)
    } else {
        match spec_predict_bags(bags.drop_last(), st) {
            Err(e) => Err(e),
            Ok(s) => match spec_predict_bag(bags.last(), st) {
                Err(e) => Err(e),
                Ok(v) => Ok(fp_add(s, v)),
            },
        }
    }
}

/// The predicted volume of a projection: that of its bag.
pub open spec fn spec_predict_projection(p: Projection, st: Store) -> Result<u64, ErrorV> {
    match p {
        Projection::Nifti(_, _, bag) => spec_predict_bag(bag, st),
        Projection::JSON(_, _, bag) => spec_predict_bag(bag, st),
    }
}

/// Whether every shape a prediction walk reaches has a defined volume
/// (see `volume_wf`; the unsupported `Nifti` shape has none).
pub open spec fn predict_wf(b: Bag) -> bool
    decreases b,
{
    match b {
        Bag::ViewPort(bag) => predict_wf(*bag),
        Bag::Distinct(bag) => predict_wf(*bag),
        Bag::Filter(_, Some(bag)) => predict_wf(*bag),
        Bag::Filter(_, None) => true,
        Bag::Complement(bag) => predict_wf(*bag),
        Bag::Intersection(lh, rh) => predict_wf(*lh) && predict_wf(*rh),
        Bag::Union(lh, rh) => predict_wf(*lh) && predict_wf(*rh),
        Bag::Bag(bags) => forall|i: int| 0 <= i < bags@.len() ==> predict_wf(#[trigger] bags@[i]),
        Bag::Inside(shape) => volume_wf(shape),
        Bag::Outside(shape) => volume_wf(shape),
    }
}

/// The error precedence of the complement and outside estimates: the
/// space is resolved before the operand is weighed.
fn space_volume(db: &Store, name: &str) -> (r: Result<Fp, QueryError>)
    ensures
        pres_view(r) == spec_space_volume(*db, name@),
{
    match db.space(name) {
        Ok(sp) => Ok(sp.volume),
        Err(e) => Err(e),
    }
}

impl Shape {
    /// The predicted volume of a shape: its geometric volume; the store
    /// plays no part in it.
    pub fn predict(&self, db: &Store) -> (r: Result<Fp, QueryError>)
        requires
            volume_wf(*self),
        ensures
            pres_view(r) == Ok::<u64, ErrorV>(shape_volume(*self)),
    {
        Ok(self.volume())
    }
}

impl Bag {
    /// The predicted volume of the bag (see `spec_predict_bag`).
    #[verifier::loop_isolation(false)]
    pub fn predict(&self, db: &Store) -> (r: Result<Fp, QueryError>)
        requires
            predict_wf(*self),
        ensures
            pres_view(r) == spec_predict_bag(*self, *db),
        decreases *self,
    {
        match self {
            Bag::ViewPort(bag) => bag.predict(db),
            Bag::Distinct(bag) => bag.predict(db),
            Bag::Filter(_, Some(bag)) => bag.predict(db),
            Bag::Filter(_, None) => space_volume(db, "Universe"),
            Bag::Complement(bag) => {
                let total = match space_volume(db, bag.space()) {
                    Err(e) => {
                        return Err(e);
                    },
                    Ok(v) => v,
                };
                match bag.predict(db) {
                    Err(e) => Err(e),
                    Ok(v) => Ok(fp::sub(total, v)),
                }
            },
            Bag::Intersection(lh, rh) => {
                let l = match lh.predict(db) {
                    Err(e) => {
                        return Err(e);
                    },
                    Ok(v) => v,
                };
                match rh.predict(db) {
                    Err(e) => Err(e),
                    Ok(r) => Ok(
                        if fp::lt(l, r) {
                            l
                        } else {
                            r
                        },
                    ),
                }
            },
            Bag::Union(lh, rh) => {
                let l = match lh.predict(db) {
                    Err(e) => {
                        return Err(e);
                    },
                    Ok(v) => v,
                };
                match rh.predict(db) {
                    Err(e) => Err(e),
                    Ok(r) => Ok(fp::add(l, r)),
                }
            },
            Bag::Bag(bags) => {
                let mut s = Fp(crate::fp::FP_ZERO);
                let mut i: usize = 0;
                while i < bags.len()
                    invariant
                        0 <= i <= bags@.len(),
                        spec_predict_bags(bags@.take(i as int), *db) == Ok::<u64, ErrorV>(s.0),
                    decreases bags@.len() - i,
                {
                    proof {
                        assert(decreases_to!(*bags => bags@));
                        assert(decreases_to!(bags@ => bags@[i as int]));
                        assert(predict_wf(bags@[i as int]));
                    }
                    match bags[i].predict(db) {
                        Err(e) => {
                            proof {
                                lemma_predict_bags_first_error(
                                    bags@,
                                    i as int,
                                    err_view(e),
                                    *db,
                                );
                            }
                            return Err(e);
                        },
                        Ok(v) => {
                            s = fp::add(s, v);
                        },
                    }
                    proof {
                        assert(bags@.take(i + 1).drop_last() =~= bags@.take(i as int));
                        assert(bags@.take(i + 1).last() == bags@[i as int]);
                    }
                    i = i + 1;
                }
                proof {
                    assert(bags@.take(bags@.len() as int) =~= bags@);
                }
                Ok(s)
            },
            Bag::Inside(shape) => shape.predict(db),
            Bag::Outside(shape) => {
                let total = match space_volume(db, shape.space()) {
                    Err(e) => {
                        return Err(e);
                    },
                    Ok(v) => v,
                };
                Ok(fp::sub(total, shape.volume()))
            },
        }
    }
}

/// After a clean prefix, the first failing bag decides the list's
/// estimate.
proof fn lemma_predict_bags_first_error(bags: Seq<Bag>, i: int, e: ErrorV, st: Store)
    requires
        0 <= i < bags.len(),
        spec_predict_bags(bags.take(i), st) is Ok,
        spec_predict_bag(bags[i], st) == Err::<u64, ErrorV>(e),
    ensures
        spec_predict_bags(bags, st) == Err::<u64, ErrorV>(e),
    decreases bags.len(),
{
    if bags.len() == i + 1 {
        assert(bags.drop_last() =~= bags.take(i));
        assert(bags.last() == bags[i]);
    } else {
        assert(bags.drop_last().take(i) =~= bags.take(i));
        assert(bags.drop_last()[i] == bags[i]);
        lemma_predict_bags_first_error(bags.drop_last(), i, e, st);
    }
}

impl Projection {
    /// The predicted volume of the projection: that of its bag.
    pub fn predict(&self, db: &Store) -> (r: Result<Fp, QueryError>)
        requires
            *self matches Projection::Nifti(_, _, bag) ==> predict_wf(bag),
            *self matches Projection::JSON(_, _, bag) ==> predict_wf(bag),
        ensures
            pres_view(r) == spec_predict_projection(*self, *db),
    {
        match self {
            Projection::Nifti(_, _, bag) => bag.predict(db),
            Projection::JSON(_, _, bag) => bag.predict(db),
        }
    }
}

} // verus!
