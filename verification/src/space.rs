//! The space registry interface: lookups over an explicit catalog.
//!
//! The registry is not hidden global state; every call names the store
//! whose catalog it reads, with the universe as one configured entry
//! among others.

use vstd::prelude::*;

use crate::fp::Fp;
use crate::store::{Store, find_space};
use crate::types::{LiteralTypes, TypeV, type_view};

verus! {

/// The structural type of positions in a space: a vector of one
/// binary64 coordinate per dimension; the empty vector for a space the
/// catalog does not know.
pub open spec fn spec_space_type(st: Store, space_id: Seq<char>) -> TypeV {
    match find_space(st.spaces@, space_id) {
        None => TypeV::Vector(Seq::empty()),
        Some(i) => TypeV::Vector(
            Seq::new(st.spaces@[i].low@.len(), |j: int| TypeV::Float),
        ),
    }
}

/// The structural type of positions in the named space (see
/// `spec_space_type`).
pub fn get_type(db: &Store, space_id: &String) -> (r: LiteralTypes)
    ensures
        type_view(r) == spec_space_type(*db, space_id@),
{
    match db.space(space_id.as_str()) {
        Err(_) => {
            let v: Vec<LiteralTypes> = Vec::new();
            proof {
                crate::types::lemma_types_view(v@);
                assert(crate::types::types_view(v@) =~= Seq::<TypeV>::empty());
            }
            LiteralTypes::Vector(v)
        },
        Ok(sp) => {
            let dims = sp.low.len();
            let mut v: Vec<LiteralTypes> = Vec::new();
            let mut i: usize = 0;
            while i < dims
                invariant
                    0 <= i <= dims,
                    v@.len() == i,
                    forall|j: int| 0 <= j < i ==> #[trigger] v@[j] is Float,
                decreases dims - i,
            {
                v.push(LiteralTypes::Float);
                i = i + 1;
            }
            proof {
                crate::types::lemma_types_view(v@);
                assert(crate::types::types_view(v@) =~= Seq::new(
                    dims as nat,
                    |j: int| TypeV::Float,
                ));
            }
            LiteralTypes::Vector(v)
        },
    }
}

/// The bounding box of the named space: its two corners, or a pair of
/// empty corners for a space the catalog does not know.
pub fn bounding_box(db: &Store, space_id: &String) -> (r: (Vec<Fp>, Vec<Fp>))
    ensures
        match find_space(db.spaces@, space_id@) {
            Some(i) => r.0@ == db.spaces@[i].low@ && r.1@ == db.spaces@[i].high@,
            None => r.0@.len() == 0 && r.1@.len() == 0,
        },
{
    match db.space(space_id.as_str()) {
        Err(_) => (Vec::new(), Vec::new()),
        Ok(sp) => (duplicate_bits(&sp.low), duplicate_bits(&sp.high)),
    }
}

/// The total volume of the named space, or 0.0 for a space the catalog
/// does not know.
pub fn max_volume(db: &Store, space_id: &String) -> (r: Fp)
    ensures
        match find_space(db.spaces@, space_id@) {
            Some(i) => r == db.spaces@[i].volume,
            None => r.0 == crate::fp::FP_ZERO,
        },
{
    match db.space(space_id.as_str()) {
        Err(_) => Fp(crate::fp::FP_ZERO),
        Ok(sp) => sp.volume,
    }
}

/// An owned copy of a coordinate vector.
fn duplicate_bits(v: &Vec<Fp>) -> (r: Vec<Fp>)
    ensures
        r@ == v@,
{
    let mut c: Vec<Fp> = Vec::new();
    let mut i: usize = 0;
    while i < v.len()
        invariant
            0 <= i <= v@.len(),
            c@ =~= v@.take(i as int),
        decreases v@.len() - i,
    {
        c.push(v[i]);
        proof {
            assert(c@ =~= v@.take(i + 1));
        }
        i = i + 1;
    }
    proof {
        assert(v@.take(v@.len() as int) =~= v@);
    }
    c
}

/// Build the filter node of a parsed predicate: with an explicit inner
/// bag the filter wraps it; with none, the implicit inner set is
/// everything inside the universe's bounding box, taken from the
/// catalog.
pub fn get_filter(p: crate::symbols::Predicate, b: Option<crate::symbols::Bag>, db: &Store) -> (r:
    crate::symbols::Bag)
    ensures
        b matches Some(inner) ==> (r matches crate::symbols::Bag::Filter(Some(p2), Some(b2)) && p2
            == p && *b2 == inner),
        b is None ==> (r matches crate::symbols::Bag::Filter(Some(p2), Some(b2)) && p2 == p && (
        *b2 matches crate::symbols::Bag::Inside(sh) && (
        sh matches crate::symbols::Shape::HyperRectangle(sp, corners) && sp@ == "Universe"@
            && corners@.len() == 2))),
{
    match b {
        Some(inner) => crate::symbols::Bag::Filter(Some(p), Some(Box::new(inner))),
        None => {
            let (low, high) = bounding_box(db, &crate::name());
            let corners = vec![
                crate::store::position_of_bits(&low),
                crate::store::position_of_bits(&high),
            ];
            let bb = crate::symbols::Shape::HyperRectangle(String::from_str("Universe"), corners);
            crate::symbols::Bag::Filter(
                Some(p),
                Some(Box::new(crate::symbols::Bag::Inside(bb))),
            )
        },
    }
}

} // verus!
