//! The executor: the set-algebra engine that turns an expression tree
//! into per-space result groups against the store.
//!
//! Results stay grouped by reference space throughout; no operator ever
//! merges entries across space identifiers.  An intersection probes
//! with the side the predictor weighs smaller; a union concatenates the
//! smaller side's groups after the larger side's, with no implicit
//! de-duplication; a complement is always taken against the universe
//! space, a stated limitation of the engine; `outside` complements
//! within the shape's own space, with the shape first nudged inward by
//! the machine epsilon so that its surface counts as outside.

use vstd::prelude::*;

use crate::errors::{ErrorV, QueryError, err_view};
use crate::evaluators::{pred_wf, spec_eval};
use crate::fp;
use crate::fp::{Fp, fp_add, fp_sub, fp_lt, FP_EPSILON};
use crate::predictors::{predict_wf, spec_predict_bag};
use crate::store::{Obj, ObjV, QShapeV, QueryShape, ResultSet, ResultSetV, Store};
use crate::store::{
    find_group, find_space, group_by_space, has_position, lemma_find_group, lemma_find_group_hit,
    obj_view, objs_view, rs_view, spec_distinct, spec_get_by_label, spec_get_by_positions,
    spec_get_by_shape, spec_group, spec_has_core,
};
use crate::symbols::{Bag, LiteralNumber, LiteralPosition, Predicate, Projection, Shape};
use crate::symbols::{bag_space, num_bits, rect_volume_upto, shape_volume, volume_wf};

verus! {

/// The parameters of one query turn: the store evaluated against, and
/// the caller's viewport box, if one is configured, as two raw corners.
pub struct CoreQueryParameters<'a> {
    pub db: &'a Store,
    pub view_port: Option<(Vec<Fp>, Vec<Fp>)>,
}

/// The view of the configured viewport.
pub open spec fn vp_view(p: CoreQueryParameters) -> Option<(Seq<Fp>, Seq<Fp>)> {
    match p.view_port {
        None => None,
        Some((low, high)) => Some((low@, high@)),
    }
}

/// A viewport box must have corners of one dimension, so that its
/// volume estimate is defined.
pub open spec fn params_wf(p: CoreQueryParameters) -> bool {
    p.view_port matches Some((low, high)) ==> low@.len() == high@.len()
}

/// The view of an execution result.
pub open spec fn eres_view(r: Result<ResultSet, QueryError>) -> Result<ResultSetV, ErrorV> {
    match r {
        Ok(rs) => Ok(rs_view(rs@)),
        Err(e) => Err(err_view(e)),
    }
}

/// The raw coordinates a literal position encodes to: each literal
/// taken as its binary64 value.
pub open spec fn bits_of_lits(s: Seq<LiteralNumber>) -> Seq<Fp> {
    Seq::new(
        s.len(),
        |i: int|
            if 0 <= i < s.len() {
                Fp(num_bits(s[i]))
            } else {
                Fp(0)
            },
    )
}

/// A position nudged by the machine epsilon on every axis: up for a
/// lower corner, down for an upper one.
pub open spec fn nudge(p: Seq<Fp>, up: bool) -> Seq<Fp> {
    Seq::new(
        p.len(),
        |i: int|
            if 0 <= i < p.len() {
                if up {
                    Fp(fp_add(p[i].0, FP_EPSILON))
                } else {
                    Fp(fp_sub(p[i].0, FP_EPSILON))
                }
            } else {
                Fp(0)
            },
    )
}

/// The objects of a group kept or dropped by a probe: an object stays
/// exactly when the probe's presence of its position equals `keep`.
pub open spec fn filter_objs_by_probe(
    objs: Seq<ObjV>,
    probe: Seq<ObjV>,
    keep: bool,
    n: int,
) -> Seq<ObjV>
    decreases n,
{
    if n <= 0 {
        Seq::empty()
    } else {
        let rest = filter_objs_by_probe(objs, probe, keep, n - 1);
        if has_position(probe, objs[n - 1].position) == keep {
            rest.push(objs[n - 1])
        } else {
            rest
        }
    }
}

/// A result set filtered against grouped probe results: a group whose
/// space the probe does not carry is dropped whole; a carried group
/// keeps the objects the probe admits (see `filter_objs_by_probe`).
pub open spec fn filter_by_probe_upto(
    rs: ResultSetV,
    probe: ResultSetV,
    keep: bool,
    n: int,
) -> ResultSetV
    decreases n,
{
    if n <= 0 {
        Seq::empty()
    } else {
        let rest = filter_by_probe_upto(rs, probe, keep, n - 1);
        let g = rs[n - 1];
        match find_group(probe, g.0) {
            None => rest,
            Some(j) => rest.push((g.0, filter_objs_by_probe(g.1, probe[j].1, keep, g.1.len() as int))),
        }
    }
}

/// See `filter_by_probe_upto`, over the whole result set.
pub open spec fn spec_filter_by_probe(rs: ResultSetV, probe: ResultSetV, keep: bool) -> ResultSetV {
    filter_by_probe_upto(rs, probe, keep, rs.len() as int)
}

/// The intersection engine: group the smaller side into a probe, then
/// keep of the bigger side the objects whose position the matching
/// space's probe holds.  Membership is by position alone; differing
/// property payloads do not block a match.  Spaces present on one side
/// only are dropped.
pub open spec fn spec_intersect(smaller: ResultSetV, bigger: ResultSetV) -> ResultSetV {
    spec_filter_by_probe(bigger, spec_group(smaller), true)
}

/// The complement engine: all objects inside the named space's bounding
/// box, less those whose position the inside set holds.  A space the
/// inside set does not report at all yields nothing, not everything.
pub open spec fn spec_complement(st: Store, space: Seq<char>, inside: ResultSetV) -> Result<
    ResultSetV,
    ErrorV,
> {
    match find_space(st.spaces@, space) {
        None => Err(ErrorV::UnknownSpace(space)),
        Some(i) => {
            let sp = st.spaces@[i];
            let pts = spec_get_by_shape(st, QShapeV::BoundingBox(sp.low@, sp.high@), space);
            Ok(spec_filter_by_probe(pts, spec_group(inside), false))
        },
    }
}

/// The objects of a group a predicate admits.
pub open spec fn filter_objs_by_pred(objs: Seq<ObjV>, p: Predicate, space: Seq<char>, n: int) -> Seq<
    ObjV,
>
    decreases n,
{
    if n <= 0 {
        Seq::empty()
    } else {
        let rest = filter_objs_by_pred(objs, p, space, n - 1);
        if spec_eval(p, space, objs[n - 1]) {
            rest.push(objs[n - 1])
        } else {
            rest
        }
    }
}

/// A result set filtered by a predicate, group by group; a group whose
/// objects are all rejected is dropped entirely.
pub open spec fn filter_pred_upto(rs: ResultSetV, p: Predicate, n: int) -> ResultSetV
    decreases n,
{
    if n <= 0 {
        Seq::empty()
    } else {
        let rest = filter_pred_upto(rs, p, n - 1);
        let g = rs[n - 1];
        let kept = filter_objs_by_pred(g.1, p, g.0, g.1.len() as int);
        if kept.len() == 0 {
            rest
        } else {
            rest.push((g.0, kept))
        }
    }
}

/// See `filter_pred_upto`, over the whole result set.
pub open spec fn spec_filter_pred(rs: ResultSetV, p: Predicate) -> ResultSetV {
    filter_pred_upto(rs, p, rs.len() as int)
}

/// What an `inside` query resolves to: the store's objects within the
/// shape, after the shape's coordinates are encoded.  A rectangle must
/// have exactly two corners; a label bypasses geometry entirely; the
/// `Nifti` placeholder is not implemented.  Positions must match their
/// space's dimension to encode.
pub open spec fn spec_inside(shape: Shape, st: Store) -> Result<ResultSetV, ErrorV> {
    match shape {
        Shape::Point(sp, pos) => match find_space(st.spaces@, sp@) {
            None => Err(ErrorV::UnknownSpace(sp@)),
            Some(i) => {
                let dims = st.spaces@[i].low@.len();
                if pos.0@.len() != dims {
                    Err(ErrorV::DimensionMismatch(sp@, dims as nat, pos.0@.len() as nat))
                } else {
                    Ok(spec_get_by_shape(st, QShapeV::Point(bits_of_lits(pos.0@)), sp@))
                }
            },
        },
        Shape::HyperRectangle(sp, corners) => if corners@.len() != 2 {
            Err(ErrorV::UnsupportedCorners(corners@.len() as nat))
        } else {
            match find_space(st.spaces@, sp@) {
                None => Err(ErrorV::UnknownSpace(sp@)),
                Some(i) => {
                    let dims = st.spaces@[i].low@.len();
                    if corners[0].0@.len() != dims {
                        Err(ErrorV::DimensionMismatch(sp@, dims as nat, corners[0].0@.len() as nat))
                    } else if corners[1].0@.len() != dims {
                        Err(ErrorV::DimensionMismatch(sp@, dims as nat, corners[1].0@.len() as nat))
                    } else {
                        Ok(
                            spec_get_by_shape(
                                st,
                                QShapeV::BoundingBox(
                                    bits_of_lits(corners[0].0@),
                                    bits_of_lits(corners[1].0@),
                                ),
                                sp@,
                            ),
                        )
                    }
                },
            }
        },
        Shape::HyperSphere(sp, center, radius) => match find_space(st.spaces@, sp@) {
            None => Err(ErrorV::UnknownSpace(sp@)),
            Some(i) => {
                let dims = st.spaces@[i].low@.len();
                if center.0@.len() != dims {
                    Err(ErrorV::DimensionMismatch(sp@, dims as nat, center.0@.len() as nat))
                } else {
                    Ok(
                        spec_get_by_shape(
                            st,
                            QShapeV::HyperSphere(bits_of_lits(center.0@), num_bits(radius)),
                            sp@,
                        ),
                    )
                }
            },
        },
        Shape::Label(_, id) => Ok(spec_get_by_label(st, id@)),
        Shape::Nifti(_) => Err(ErrorV::InsideNifti),
    }
}

/// What an `outside` query resolves to: the complement, within the
/// shape's own declared space, of the objects inside the shape after it
/// is nudged inward by the machine epsilon, so that objects exactly on
/// the surface end up outside.  The raw coordinates are queried as they
/// stand; no encoding step applies on this path.
pub open spec fn spec_outside(shape: Shape, st: Store) -> Result<ResultSetV, ErrorV> {
    match shape {
        Shape::Point(sp, pos) => spec_complement(
            st,
            sp@,
            spec_get_by_positions(st, seq![bits_of_lits(pos.0@)], sp@),
        ),
        Shape::HyperRectangle(sp, corners) => {
            let low = nudge(bits_of_lits(corners[0].0@), true);
            let high = nudge(bits_of_lits(corners[1].0@), false);
            spec_complement(
                st,
                sp@,
                spec_get_by_shape(st, QShapeV::BoundingBox(low, high), sp@),
            )
        },
        Shape::HyperSphere(sp, center, radius) => spec_complement(
            st,
            sp@,
            spec_get_by_shape(
                st,
                QShapeV::HyperSphere(
                    bits_of_lits(center.0@),
                    fp_sub(num_bits(radius), FP_EPSILON),
                ),
                sp@,
            ),
        ),
        Shape::Label(sp, id) => spec_complement(st, sp@, spec_get_by_label(st, id@)),
        Shape::Nifti(_) => Err(ErrorV::OutsideNifti),
    }
}

/// Whether the right side's estimate undercuts the left's: only two
/// successful estimates compare; with any failure the default order
/// stands, and the left side becomes the probe.
pub open spec fn right_is_smaller(lp: Result<u64, ErrorV>, rp: Result<u64, ErrorV>) -> bool {
    match (lp, rp) {
        (Ok(l), Ok(r)) => fp_lt(r, l),
        (Err(_), Ok(_)) => true,
        _ => false,
    }
}

/// The volume estimate of the viewport box, as the rectangle shape
/// built from it would weigh.
pub open spec fn vp_rect_volume(low: Seq<Fp>, high: Seq<Fp>) -> u64 {
    rect_volume_upto(
        crate::store::lit_of_bits(low),
        crate::store::lit_of_bits(high),
        low.len() as int,
    )
}

/// What executing a bag yields: per-space groups of objects, or the
/// first error of the walk.  Execution of any node first demands a
/// known core.
pub open spec fn spec_execute_bag(
    b: Bag,
    core: Seq<char>,
    st: Store,
    vp: Option<(Seq<Fp>, Seq<Fp>)>,
) -> Result<ResultSetV, ErrorV>
    decreases b,
{
    if !spec_has_core(st, core) {
        Err(ErrorV::UnknownCore(core))
    } else {
        match b {
            Bag::ViewPort(bag) => match vp {
                None => spec_execute_bag(*bag, core, st, vp),
                Some((low, high)) => match spec_execute_bag(*bag, core, st, vp) {
                    Err(e) => Err(e),
                    Ok(child) => {
                        let sp = bag_space(*bag);
                        match find_space(st.spaces@, sp) {
                            None => Err(ErrorV::UnknownSpace(sp)),
                            Some(i) => {
                                let dims = st.spaces@[i].low@.len();
                                if low.len() != dims {
                                    Err(ErrorV::DimensionMismatch(sp, dims as nat, low.len() as nat))
                                } else if high.len() != dims {
                                    Err(
                                        ErrorV::DimensionMismatch(
                                            sp,
                                            dims as nat,
                                            high.len() as nat,
                                        ),
                                    )
                                } else {
                                    let vp_res = spec_get_by_shape(
                                        st,
                                        QShapeV::BoundingBox(low, high),
                                        sp,
                                    );
                                    let lp = spec_predict_bag(*bag, st);
                                    let rp = Ok::<u64, ErrorV>(vp_rect_volume(low, high));
                                    if right_is_smaller(lp, rp) {
                                        Ok(spec_intersect(vp_res, child))
                                    } else {
                                        Ok(spec_intersect(child, vp_res))
                                    }
                                }
                            },
                        }
                    },
                },
            },
            Bag::Distinct(bag) => match spec_execute_bag(*bag, core, st, vp) {
                Err(e) => Err(e),
                Ok(child) => Ok(spec_distinct(child)),
            },
            Bag::Filter(pred, inner) => {
                let base = match inner {
                    Some(bag) => spec_execute_bag(*bag, core, st, vp),
                    None => match find_space(st.spaces@, "Universe"@) {
                        None => Err(ErrorV::UnknownSpace("Universe"@)),
                        Some(i) => {
                            let sp = st.spaces@[i];
                            Ok(
                                spec_get_by_shape(
                                    st,
                                    QShapeV::BoundingBox(sp.low@, sp.high@),
                                    "Universe"@,
                                ),
                            )
                        },
                    },
                };
                match base {
                    Err(e) => Err(e),
                    Ok(rs) => match pred {
                        None => Ok(rs),
                        Some(p) => Ok(spec_filter_pred(rs, p)),
                    },
                }
            },
            Bag::Complement(bag) => match spec_execute_bag(*bag, core, st, vp) {
                Err(e) => Err(e),
                Ok(child) => spec_complement(st, "Universe"@, child),
            },
            Bag::Intersection(lh, rh) => match spec_execute_bag(*lh, core, st, vp) {
                Err(e) => Err(e),
                Ok(lv) => match spec_execute_bag(*rh, core, st, vp) {
                    Err(e) => Err(e),
                    Ok(rv) => {
                        let lp = spec_predict_bag(*lh, st);
                        let rp = spec_predict_bag(*rh, st);
                        if right_is_smaller(lp, rp) {
                            Ok(spec_intersect(rv, lv))
                        } else {
                            Ok(spec_intersect(lv, rv))
                        }
                    },
                },
            },
            Bag::Union(lh, rh) => match spec_execute_bag(*lh, core, st, vp) {
                Err(e) => Err(e),
                Ok(lv) => match spec_execute_bag(*rh, core, st, vp) {
                    Err(e) => Err(e),
                    Ok(rv) => {
                        let lp = spec_predict_bag(*lh, st);
                        let rp = spec_predict_bag(*rh, st);
                        if right_is_smaller(lp, rp) {
                            Ok(lv + rv)
                        } else {
                            Ok(rv + lv)
                        }
                    },
                },
            },
            Bag::Bag(bags) => spec_execute_bags(bags@, core, st, vp),
            Bag::Inside(shape) => spec_inside(shape, st),
            Bag::Outside(shape) => spec_outside(shape, st),
        }
    }
}

/// The concatenation of the results of a bag list, in order, or the
/// first error.
pub open spec fn spec_execute_bags(
    bags: Seq<Bag>,
    core: Seq<char>,
    st: Store,
    vp: Option<(Seq<Fp>, Seq<Fp>)>,
) -> Result<ResultSetV, ErrorV>
    decreases bags,
{
    if bags.len() == 0 {
        Ok(Seq::empty())
    } else {
        match spec_execute_bags(bags.drop_last(), core, st, vp) {
            Err(e) => Err(e),
            Ok(acc) => match spec_execute_bag(bags.last(), core, st, vp) {
                Err(e) => Err(e),
                Ok(rs) => Ok(acc + rs),
            },
        }
    }
}

/// What executing a projection yields: the `Nifti` form is not
/// implemented; the JSON form passes its bag's results through, the
/// JSON value language not being wired into execution yet.
pub open spec fn spec_execute_projection(
    p: Projection,
    core: Seq<char>,
    st: Store,
    vp: Option<(Seq<Fp>, Seq<Fp>)>,
) -> Result<ResultSetV, ErrorV> {
    match p {
        Projection::Nifti(_, _, _) => Err(ErrorV::ProjectionNifti),
        Projection::JSON(_, _, bag) => spec_execute_bag(bag, core, st, vp),
    }
}

/// What execution demands of a tree so that no walk can abort the
/// process: every filter predicate's string comparisons rest on
/// reserved selectors; every `outside` rectangle has at least its two
/// defining corners, of one dimension; and under a set operation or a
/// viewport clip, where the predictor weighs both sides, every shape
/// must have a defined volume.
pub open spec fn exec_wf(b: Bag) -> bool
    decreases b,
{
    match b {
        Bag::ViewPort(bag) => predict_wf(*bag) && exec_wf(*bag),
        Bag::Distinct(bag) => exec_wf(*bag),
        Bag::Filter(pred, inner) => {
            &&& (pred matches Some(p) ==> pred_wf(p))
            &&& (inner matches Some(bag) ==> exec_wf(*bag))
        },
        Bag::Complement(bag) => exec_wf(*bag),
        Bag::Intersection(lh, rh) => predict_wf(*lh) && predict_wf(*rh) && exec_wf(*lh)
            && exec_wf(*rh),
        Bag::Union(lh, rh) => predict_wf(*lh) && predict_wf(*rh) && exec_wf(*lh) && exec_wf(*rh),
        Bag::Bag(bags) => forall|i: int| 0 <= i < bags@.len() ==> exec_wf(#[trigger] bags@[i]),
        Bag::Inside(_) => true,
        Bag::Outside(shape) => shape matches Shape::HyperRectangle(_, corners) ==> {
            &&& corners@.len() >= 2
            &&& corners[1].0@.len() == corners[0].0@.len()
        },
    }
}

/// An owned copy of a coordinate vector.
fn dup_bits(v: &Vec<Fp>) -> (r: Vec<Fp>)
    ensures
        r@ == v@,
{
    let mut c: Vec<Fp> = Vec::new();
    let mut i: usize = 0;
    while i < v.len()
        invariant
            0 <= i <= v@.len(),
            c@ =~= v@.take(i as int),
        decreases v@.len() - i,
    {
        c.push(v[i]);
        proof {
            assert(c@ =~= v@.take(i + 1));
        }
        i = i + 1;
    }
    proof {
        assert(v@.take(v@.len() as int) =~= v@);
    }
    c
}

/// Encode a literal position into raw coordinates: each literal taken
/// as its binary64 value.
fn encode_position(pos: &LiteralPosition) -> (r: Vec<Fp>)
    ensures
        r@ == bits_of_lits(pos.0@),
{
    let mut c: Vec<Fp> = Vec::new();
    let mut i: usize = 0;
    while i < pos.0.len()
        invariant
            0 <= i <= pos.0@.len(),
            c@.len() == i,
            forall|j: int| 0 <= j < i ==> #[trigger] c@[j] == Fp(num_bits(pos.0@[j])),
        decreases pos.0@.len() - i,
    {
        c.push(pos.0[i].to_fp());
        i = i + 1;
    }
    proof {
        assert(c@ =~= bits_of_lits(pos.0@));
    }
    c
}

/// Nudge a position by the machine epsilon on every axis (see `nudge`).
fn nudge_position(p: &Vec<Fp>, up: bool) -> (r: Vec<Fp>)
    ensures
        r@ == nudge(p@, up),
{
    let mut c: Vec<Fp> = Vec::new();
    let mut i: usize = 0;
    while i < p.len()
        invariant
            0 <= i <= p@.len(),
            c@.len() == i,
            forall|j: int| 0 <= j < i ==> #[trigger] c@[j] == nudge(p@, up)[j],
        decreases p@.len() - i,
    {
        if up {
            c.push(fp::add(p[i], Fp(FP_EPSILON)));
        } else {
            c.push(fp::sub(p[i], Fp(FP_EPSILON)));
        }
        i = i + 1;
    }
    proof {
        assert(c@ =~= nudge(p@, up));
    }
    c
}

/// Keep or drop the objects of one group against one probe group (the
/// executable form of `filter_objs_by_probe`).
#[verifier::loop_isolation(false)]
fn filter_group_objs(objs: Vec<Obj>, probe: &Vec<Obj>, keep: bool) -> (r: Vec<Obj>)
    ensures
        objs_view(r@) == filter_objs_by_probe(
            objs_view(objs@),
            objs_view(probe@),
            keep,
            objs@.len() as int,
        ),
{
    let ghost orig = objs_view(objs@);
    let mut rest = objs;
    let mut out: Vec<Obj> = Vec::new();
    let ghost k: int = 0;
    proof {
        assert(objs_view(rest@) =~= orig.skip(0));
        assert(objs_view(out@) =~= filter_objs_by_probe(orig, objs_view(probe@), keep, 0));
    }
    while rest.len() > 0
        invariant
            0 <= k <= orig.len(),
            objs_view(rest@) =~= orig.skip(k),
            objs_view(out@) == filter_objs_by_probe(orig, objs_view(probe@), keep, k),
        decreases rest@.len(),
    {
        let ghost prev = rest@;
        let o = rest.remove(0);
        proof {
            crate::store::lemma_remove_front_pub(prev);
            assert(obj_view(o) == objs_view(prev)[0]);
            assert(objs_view(prev)[0] == orig.skip(k)[0]);
            assert(prev.len() > 0);
            assert(orig.skip(k).len() == orig.len() - k);
            assert(k < orig.len());
            assert(orig.skip(k)[0] == orig[k]);
            assert(objs_view(rest@) =~= orig.skip(k + 1)) by {
                assert forall|x: int| 0 <= x < rest@.len() implies objs_view(rest@)[x]
                    == orig.skip(k + 1)[x] by {
                    assert(rest@[x] == prev[x + 1]);
                    assert(objs_view(prev)[x + 1] == orig.skip(k)[x + 1]);
                }
            }
        }
        let listed = crate::store::objs_have_position(probe, &o.position);
        if listed == keep {
            out.push(o);
        }
        proof {
            k = k + 1;
            assert(objs_view(out@) =~= filter_objs_by_probe(orig, objs_view(probe@), keep, k));
        }
    }
    proof {
        assert(objs_view(rest@).len() == 0);
        assert(k == orig.len());
    }
    out
}

/// Filter a result set against grouped probe results (the executable
/// form of `spec_filter_by_probe`).
#[verifier::loop_isolation(false)]
fn filter_by_probe(rs: ResultSet, probe: &ResultSet, keep: bool) -> (r: ResultSet)
    ensures
        rs_view(r@) == spec_filter_by_probe(rs_view(rs@), rs_view(probe@), keep),
{
    let ghost orig = rs_view(rs@);
    let ghost pv = rs_view(probe@);
    let mut rest = rs;
    let mut out: ResultSet = Vec::new();
    let ghost k: int = 0;
    proof {
        assert(rs_view(rest@) =~= orig.skip(0));
        assert(rs_view(out@) =~= filter_by_probe_upto(orig, pv, keep, 0));
    }
    while rest.len() > 0
        invariant
            0 <= k <= orig.len(),
            rs_view(rest@) =~= orig.skip(k),
            rs_view(out@) == filter_by_probe_upto(orig, pv, keep, k),
        decreases rest@.len(),
    {
        let ghost prev = rest@;
        let g = rest.remove(0);
        proof {
            crate::store::lemma_remove_front_pub(prev);
            assert((g.0@, objs_view(g.1@)) == rs_view(prev)[0]);
            assert(rs_view(prev)[0] == orig.skip(k)[0]);
            assert(prev.len() > 0);
            assert(orig.skip(k).len() == orig.len() - k);
            assert(k < orig.len());
            assert(orig.skip(k)[0] == orig[k]);
            assert(rs_view(rest@) =~= orig.skip(k + 1)) by {
                assert forall|x: int| 0 <= x < rest@.len() implies rs_view(rest@)[x] == orig.skip(
                    k + 1,
                )[x] by {
                    assert(rest@[x] == prev[x + 1]);
                    assert(rs_view(prev)[x + 1] == orig.skip(k)[x + 1]);
                }
            }
        }
        let mut j: usize = 0;
        let mut found = false;
        let mut probe_at: usize = 0;
        while j < probe.len()
            invariant
                0 <= j <= probe@.len(),
                pv == rs_view(probe@),
                !found ==> forall|x: int| 0 <= x < j ==> (#[trigger] pv[x]).0 != g.0@,
                found ==> 0 <= probe_at < probe@.len() && find_group(pv, g.0@) == Some(
                    probe_at as int,
                ),
            decreases probe@.len() - j,
        {
            if !found && crate::strings::str_eq(probe[j].0.as_str(), g.0.as_str()) {
                proof {
                    assert(pv[j as int].0 == g.0@);
                    lemma_find_group_hit(pv, g.0@, j as int);
                }
                found = true;
                probe_at = j;
            }
            j = j + 1;
        }
        if found {
            let kept = filter_group_objs(g.1, &probe[probe_at].1, keep);
            proof {
                assert(objs_view(probe@[probe_at as int].1@) == pv[probe_at as int].1);
            }
            out.push((g.0, kept));
        } else {
            proof {
                lemma_find_group(pv, g.0@);
            }
        }
        proof {
            k = k + 1;
            assert(rs_view(out@) =~= filter_by_probe_upto(orig, pv, keep, k));
        }
    }
    proof {
        assert(rs_view(rest@).len() == 0);
        assert(k == orig.len());
    }
    out
}

/// The intersection engine (see `spec_intersect`): probe with the
/// smaller side, filter the bigger one.
fn intersect_helper(smaller: ResultSet, bigger: ResultSet) -> (r: ResultSet)
    ensures
        rs_view(r@) == spec_intersect(rs_view(smaller@), rs_view(bigger@)),
{
    let ghost sv = rs_view(smaller@);
    let probe = group_by_space(smaller);
    filter_by_probe(bigger, &probe, true)
}

/// The complement engine (see `spec_complement`): everything inside the
/// named space's bounding box, less the positions the inside set holds.
fn complement_helper(db: &Store, space_id: &str, inside: ResultSet) -> (r: Result<
    ResultSet,
    QueryError,
>)
    ensures
        eres_view(r) == spec_complement(*db, space_id@, rs_view(inside@)),
{
    let space = match db.space(space_id) {
        Err(e) => {
            return Err(e);
        },
        Ok(sp) => sp,
    };
    let q = QueryShape::BoundingBox(dup_bits(&space.low), dup_bits(&space.high));
    let pts = db.get_by_shape(&q, space_id);
    let probe = group_by_space(inside);
    Ok(filter_by_probe(pts, &probe, false))
}

/// Filter a result set by a predicate (the executable form of
/// `spec_filter_pred`); groups left empty are dropped whole.
#[verifier::loop_isolation(false)]
fn filter_pred(rs: ResultSet, predicate: &Predicate) -> (r: ResultSet)
    requires
        pred_wf(*predicate),
    ensures
        rs_view(r@) == spec_filter_pred(rs_view(rs@), *predicate),
{
    let ghost orig = rs_view(rs@);
    let mut rest = rs;
    let mut out: ResultSet = Vec::new();
    let ghost k: int = 0;
    proof {
        assert(rs_view(rest@) =~= orig.skip(0));
        assert(rs_view(out@) =~= filter_pred_upto(orig, *predicate, 0));
    }
    while rest.len() > 0
        invariant
            0 <= k <= orig.len(),
            rs_view(rest@) =~= orig.skip(k),
            rs_view(out@) == filter_pred_upto(orig, *predicate, k),
        decreases rest@.len(),
    {
        let ghost prev = rest@;
        let g = rest.remove(0);
        proof {
            crate::store::lemma_remove_front_pub(prev);
            assert((g.0@, objs_view(g.1@)) == rs_view(prev)[0]);
            assert(rs_view(prev)[0] == orig.skip(k)[0]);
            assert(prev.len() > 0);
            assert(orig.skip(k).len() == orig.len() - k);
            assert(k < orig.len());
            assert(orig.skip(k)[0] == orig[k]);
            assert(rs_view(rest@) =~= orig.skip(k + 1)) by {
                assert forall|x: int| 0 <= x < rest@.len() implies rs_view(rest@)[x] == orig.skip(
                    k + 1,
                )[x] by {
                    assert(rest@[x] == prev[x + 1]);
                    assert(rs_view(prev)[x + 1] == orig.skip(k)[x + 1]);
                }
            }
        }
        let (space, objs) = g;
        let ghost ov = objs_view(objs@);
        let mut objs_rest = objs;
        let mut kept: Vec<Obj> = Vec::new();
        let ghost m: int = 0;
        proof {
            assert(objs_view(objs_rest@) =~= ov.skip(0));
            assert(objs_view(kept@) =~= filter_objs_by_pred(ov, *predicate, space@, 0));
        }
        while objs_rest.len() > 0
            invariant
                0 <= m <= ov.len(),
                objs_view(objs_rest@) =~= ov.skip(m),
                objs_view(kept@) == filter_objs_by_pred(ov, *predicate, space@, m),
            decreases objs_rest@.len(),
        {
            let ghost oprev = objs_rest@;
            let o = objs_rest.remove(0);
            proof {
                crate::store::lemma_remove_front_pub(oprev);
                assert(obj_view(o) == objs_view(oprev)[0]);
                assert(objs_view(oprev)[0] == ov.skip(m)[0]);
                assert(oprev.len() > 0);
                assert(ov.skip(m).len() == ov.len() - m);
                assert(m < ov.len());
                assert(ov.skip(m)[0] == ov[m]);
                assert(objs_view(objs_rest@) =~= ov.skip(m + 1)) by {
                    assert forall|x: int| 0 <= x < objs_rest@.len() implies objs_view(
                        objs_rest@,
                    )[x] == ov.skip(m + 1)[x] by {
                        assert(objs_rest@[x] == oprev[x + 1]);
                        assert(objs_view(oprev)[x + 1] == ov.skip(m)[x + 1]);
                    }
                }
            }
            if predicate.eval((&space, &o.position, &o.properties)) {
                kept.push(o);
            }
            proof {
                m = m + 1;
                assert(objs_view(kept@) =~= filter_objs_by_pred(ov, *predicate, space@, m));
            }
        }
        proof {
            assert(objs_view(objs_rest@).len() == 0);
            assert(m == ov.len());
        }
        if kept.len() > 0 {
            out.push((space, kept));
        }
        proof {
            k = k + 1;
            assert(rs_view(out@) =~= filter_pred_upto(orig, *predicate, k));
        }
    }
    proof {
        assert(rs_view(rest@).len() == 0);
        assert(k == orig.len());
    }
    out
}

impl Shape {
    /// Resolve an `inside` query against the store (see `spec_inside`).
    fn inside(&self, parameters: &CoreQueryParameters) -> (r: Result<ResultSet, QueryError>)
        ensures
            eres_view(r) == spec_inside(*self, *parameters.db),
    {
        let db = parameters.db;
        match self {
            Shape::Point(space_id, position) => {
                let space = match db.space(space_id.as_str()) {
                    Err(e) => {
                        return Err(e);
                    },
                    Ok(sp) => sp,
                };
                if position.0.len() != space.low.len() {
                    return Err(
                        QueryError::DimensionMismatch(
                            space_id.clone(),
                            space.low.len(),
                            position.0.len(),
                        ),
                    );
                }
                let q = QueryShape::Point(encode_position(position));
                Ok(db.get_by_shape(&q, space_id.as_str()))
            },
            Shape::HyperRectangle(space_id, corners) => {
                if corners.len() != 2 {
                    return Err(QueryError::UnsupportedCorners(corners.len()));
                }
                let space = match db.space(space_id.as_str()) {
                    Err(e) => {
                        return Err(e);
                    },
                    Ok(sp) => sp,
                };
                if corners[0].0.len() != space.low.len() {
                    return Err(
                        QueryError::DimensionMismatch(
                            space_id.clone(),
                            space.low.len(),
                            corners[0].0.len(),
                        ),
                    );
                }
                if corners[1].0.len() != space.low.len() {
                    return Err(
                        QueryError::DimensionMismatch(
                            space_id.clone(),
                            space.low.len(),
                            corners[1].0.len(),
                        ),
                    );
                }
                let q = QueryShape::BoundingBox(
                    encode_position(&corners[0]),
                    encode_position(&corners[1]),
                );
                Ok(db.get_by_shape(&q, space_id.as_str()))
            },
            Shape::HyperSphere(space_id, center, radius) => {
                let space = match db.space(space_id.as_str()) {
                    Err(e) => {
                        return Err(e);
                    },
                    Ok(sp) => sp,
                };
                if center.0.len() != space.low.len() {
                    return Err(
                        QueryError::DimensionMismatch(
                            space_id.clone(),
                            space.low.len(),
                            center.0.len(),
                        ),
                    );
                }
                let q = QueryShape::HyperSphere(encode_position(center), radius.to_fp());
                Ok(db.get_by_shape(&q, space_id.as_str()))
            },
            Shape::Label(_, id) => Ok(db.get_by_label(id.as_str())),
            Shape::Nifti(_) => Err(QueryError::InsideNifti),
        }
    }

    /// Resolve an `outside` query against the store (see
    /// `spec_outside`): the complement, within the shape's own space, of
    /// the inside of the shape nudged inward by the machine epsilon.
    fn outside(&self, parameters: &CoreQueryParameters) -> (r: Result<ResultSet, QueryError>)
        requires
            *self matches Shape::HyperRectangle(_, corners) ==> corners@.len() >= 2,
        ensures
            eres_view(r) == spec_outside(*self, *parameters.db),
    {
        let db = parameters.db;
        match self {
            Shape::Point(space_id, position) => {
                let mut positions: Vec<Vec<Fp>> = Vec::new();
                positions.push(encode_position(position));
                let inside = db.get_by_positions(&positions, space_id.as_str());
                proof {
                    assert(crate::store::poss_view(positions@) =~= seq![
                        bits_of_lits(position.0@),
                    ]);
                }
                complement_helper(db, space_id.as_str(), inside)
            },
            Shape::HyperRectangle(space_id, corners) => {
                let low_raw = encode_position(&corners[0]);
                let high_raw = encode_position(&corners[1]);
                let low = nudge_position(&low_raw, true);
                let high = nudge_position(&high_raw, false);
                let q = QueryShape::BoundingBox(low, high);
                let inside = db.get_by_shape(&q, space_id.as_str());
                complement_helper(db, space_id.as_str(), inside)
            },
            Shape::HyperSphere(space_id, center, radius) => {
                let shrunk = fp::sub(radius.to_fp(), Fp(FP_EPSILON));
                let q = QueryShape::HyperSphere(encode_position(center), shrunk);
                let inside = db.get_by_shape(&q, space_id.as_str());
                complement_helper(db, space_id.as_str(), inside)
            },
            Shape::Label(space_id, id) => {
                let inside = db.get_by_label(id.as_str());
                complement_helper(db, space_id.as_str(), inside)
            },
            Shape::Nifti(_) => Err(QueryError::OutsideNifti),
        }
    }
}

/// Compare the two sides' estimates (see `right_is_smaller`).
fn right_smaller(lp: &Result<Fp, QueryError>, rp: &Result<Fp, QueryError>) -> (r: bool)
    ensures
        r == right_is_smaller(crate::predictors::pres_view(*lp), crate::predictors::pres_view(*rp)),
{
    match (lp, rp) {
        (Ok(l), Ok(rv)) => fp::lt(*rv, *l),
        (Err(_), Ok(_)) => true,
        _ => false,
    }
}

impl Bag {
    /// Execute the bag against the store (see `spec_execute_bag`).
    #[verifier::loop_isolation(false)]
    pub fn execute(&self, core_id: &str, parameters: &CoreQueryParameters) -> (r: Result<
        ResultSet,
        QueryError,
    >)
        requires
            exec_wf(*self),
            params_wf(*parameters),
        ensures
            eres_view(r) == spec_execute_bag(*self, core_id@, *parameters.db, vp_view(*parameters)),
        decreases *self,
    {
        if !parameters.db.has_core(core_id) {
            return Err(QueryError::UnknownCore(String::from_str(core_id)));
        }
        match self {
            Bag::ViewPort(bag) => {
                match &parameters.view_port {
                    None => bag.execute(core_id, parameters),
                    Some((low, high)) => {
                        let child = match bag.execute(core_id, parameters) {
                            Err(e) => {
                                return Err(e);
                            },
                            Ok(rs) => rs,
                        };
                        let sp = bag.space();
                        let space = match parameters.db.space(sp) {
                            Err(e) => {
                                return Err(e);
                            },
                            Ok(space) => space,
                        };
                        let dims = space.low.len();
                        if low.len() != dims {
                            return Err(
                                QueryError::DimensionMismatch(
                                    String::from_str(sp),
                                    dims,
                                    low.len(),
                                ),
                            );
                        }
                        if high.len() != dims {
                            return Err(
                                QueryError::DimensionMismatch(
                                    String::from_str(sp),
                                    dims,
                                    high.len(),
                                ),
                            );
                        }
                        let q = QueryShape::BoundingBox(dup_bits(low), dup_bits(high));
                        let vp_res = parameters.db.get_by_shape(&q, sp);
                        let lp = bag.predict(parameters.db);
                        let rect = Shape::HyperRectangle(
                            String::from_str(sp),
                            vec![
                                crate::store::position_of_bits(low),
                                crate::store::position_of_bits(high),
                            ],
                        );
                        proof {
                            assert(rect matches Shape::HyperRectangle(_, cs) && cs@.len() == 2
                                && cs@[0].0@ == crate::store::lit_of_bits(low@) && cs@[1].0@
                                == crate::store::lit_of_bits(high@));
                            assert(volume_wf(rect));
                        }
                        let rv = rect.volume();
                        let rp = Ok::<Fp, QueryError>(rv);
                        proof {
                            assert(shape_volume(rect) == vp_rect_volume(low@, high@));
                        }
                        if right_smaller(&lp, &rp) {
                            Ok(intersect_helper(vp_res, child))
                        } else {
                            Ok(intersect_helper(child, vp_res))
                        }
                    },
                }
            },
            Bag::Distinct(bag) => match bag.execute(core_id, parameters) {
                Err(e) => Err(e),
                Ok(child) => Ok(crate::store::distinct_helper(child)),
            },
            Bag::Filter(pred, inner) => {
                let base = match inner {
                    Some(bag) => match bag.execute(core_id, parameters) {
                        Err(e) => {
                            return Err(e);
                        },
                        Ok(rs) => rs,
                    },
                    None => {
                        let space = match parameters.db.space("Universe") {
                            Err(e) => {
                                return Err(e);
                            },
                            Ok(space) => space,
                        };
                        let q = QueryShape::BoundingBox(
                            dup_bits(&space.low),
                            dup_bits(&space.high),
                        );
                        parameters.db.get_by_shape(&q, "Universe")
                    },
                };
                match pred {
                    None => Ok(base),
                    Some(p) => Ok(filter_pred(base, p)),
                }
            },
            Bag::Complement(bag) => match bag.execute(core_id, parameters) {
                Err(e) => Err(e),
                Ok(child) => complement_helper(parameters.db, "Universe", child),
            },
            Bag::Intersection(lh, rh) => {
                let lv = match lh.execute(core_id, parameters) {
                    Err(e) => {
                        return Err(e);
                    },
                    Ok(rs) => rs,
                };
                let rv = match rh.execute(core_id, parameters) {
                    Err(e) => {
                        return Err(e);
                    },
                    Ok(rs) => rs,
                };
                let lp = lh.predict(parameters.db);
                let rp = rh.predict(parameters.db);
                if right_smaller(&lp, &rp) {
                    Ok(intersect_helper(rv, lv))
                } else {
                    Ok(intersect_helper(lv, rv))
                }
            },
            Bag::Union(lh, rh) => {
                let lv = match lh.execute(core_id, parameters) {
                    Err(e) => {
                        return Err(e);
                    },
                    Ok(rs) => rs,
                };
                let rv = match rh.execute(core_id, parameters) {
                    Err(e) => {
                        return Err(e);
                    },
                    Ok(rs) => rs,
                };
                let lp = lh.predict(parameters.db);
                let rp = rh.predict(parameters.db);
                if right_smaller(&lp, &rp) {
                    let mut lv = lv;
                    let mut rv = rv;
                    let ghost lview = rs_view(lv@);
                    let ghost rview = rs_view(rv@);
                    lv.append(&mut rv);
                    proof {
                        lemma_rs_view_concat(lview, rview, lv@);
                    }
                    Ok(lv)
                } else {
                    let mut lv = lv;
                    let mut rv = rv;
                    let ghost lview = rs_view(lv@);
                    let ghost rview = rs_view(rv@);
                    rv.append(&mut lv);
                    proof {
                        lemma_rs_view_concat(rview, lview, rv@);
                    }
                    Ok(rv)
                }
            },
            Bag::Bag(bags) => {
                let mut results: ResultSet = Vec::new();
                let mut i: usize = 0;
                proof {
                    assert(rs_view(results@) =~= Seq::<(Seq<char>, Seq<ObjV>)>::empty());
                    assert(spec_execute_bags(
                        bags@.take(0),
                        core_id@,
                        *parameters.db,
                        vp_view(*parameters),
                    ) == Ok::<ResultSetV, ErrorV>(rs_view(results@)));
                }
                while i < bags.len()
                    invariant
                        0 <= i <= bags@.len(),
                        spec_execute_bags(
                            bags@.take(i as int),
                            core_id@,
                            *parameters.db,
                            vp_view(*parameters),
                        ) == Ok::<ResultSetV, ErrorV>(rs_view(results@)),
                    decreases bags@.len() - i,
                {
                    proof {
                        assert(decreases_to!(*bags => bags@));
                        assert(decreases_to!(bags@ => bags@[i as int]));
                        assert(exec_wf(bags@[i as int]));
                    }
                    match bags[i].execute(core_id, parameters) {
                        Err(e) => {
                            proof {
                                lemma_execute_bags_first_error(
                                    bags@,
                                    i as int,
                                    err_view(e),
                                    core_id@,
                                    *parameters.db,
                                    vp_view(*parameters),
                                );
                            }
                            return Err(e);
                        },
                        Ok(mut result) => {
                            let ghost aview = rs_view(results@);
                            let ghost bview = rs_view(result@);
                            results.append(&mut result);
                            proof {
                                lemma_rs_view_concat(aview, bview, results@);
                                assert(bags@.take(i + 1).drop_last() =~= bags@.take(i as int));
                                assert(bags@.take(i + 1).last() == bags@[i as int]);
                            }
                        },
                    }
                    i = i + 1;
                }
                proof {
                    assert(bags@.take(bags@.len() as int) =~= bags@);
                }
                Ok(results)
            },
            Bag::Inside(shape) => shape.inside(parameters),
            Bag::Outside(shape) => shape.outside(parameters),
        }
    }
}

/// The views of two concatenated result sets concatenate.
proof fn lemma_rs_view_concat(a: ResultSetV, b: ResultSetV, joined: Seq<(String, Vec<Obj>)>)
    requires
        exists|x: Seq<(String, Vec<Obj>)>, y: Seq<(String, Vec<Obj>)>|
            joined == x + y && rs_view(x) == a && rs_view(y) == b,
    ensures
        rs_view(joined) =~= a + b,
{
    let (x, y): (Seq<(String, Vec<Obj>)>, Seq<(String, Vec<Obj>)>) = choose|
        x: Seq<(String, Vec<Obj>)>,
        y: Seq<(String, Vec<Obj>)>,
    | joined == x + y && rs_view(x) == a && rs_view(y) == b;
    assert forall|i: int| 0 <= i < joined.len() implies rs_view(joined)[i] == (a + b)[i] by {
        if i < x.len() {
            assert(joined[i] == x[i]);
        } else {
            assert(joined[i] == y[i - x.len()]);
        }
    }
}

/// After clean results, the first failing bag decides the list.
proof fn lemma_execute_bags_first_error(
    bags: Seq<Bag>,
    i: int,
    e: ErrorV,
    core: Seq<char>,
    st: Store,
    vp: Option<(Seq<Fp>, Seq<Fp>)>,
)
    requires
        0 <= i < bags.len(),
        spec_execute_bags(bags.take(i), core, st, vp) is Ok,
        spec_execute_bag(bags[i], core, st, vp) == Err::<ResultSetV, ErrorV>(e),
    ensures
        spec_execute_bags(bags, core, st, vp) == Err::<ResultSetV, ErrorV>(e),
    decreases bags.len(),
{
    if bags.len() == i + 1 {
        assert(bags.drop_last() =~= bags.take(i));
        assert(bags.last() == bags[i]);
    } else {
        assert(bags.drop_last().take(i) =~= bags.take(i));
        assert(bags.drop_last()[i] == bags[i]);
        lemma_execute_bags_first_error(bags.drop_last(), i, e, core, st, vp);
    }
}

impl Projection {
    /// Execute the projection (see `spec_execute_projection`): the JSON
    /// form passes its bag's results through.
    pub fn execute(&self, core_id: &str, parameters: &CoreQueryParameters) -> (r: Result<
        ResultSet,
        QueryError,
    >)
        requires
            *self matches Projection::JSON(_, _, bag) ==> exec_wf(bag),
            params_wf(*parameters),
        ensures
            eres_view(r) == spec_execute_projection(
                *self,
                core_id@,
                *parameters.db,
                vp_view(*parameters),
            ),
    {
        match self {
            Projection::Nifti(_, _, _) => Err(QueryError::ProjectionNifti),
            Projection::JSON(_, _, bag) => bag.execute(core_id, parameters),
        }
    }
}

/// Whether a tree satisfies everything `execute` demands (see
/// `exec_wf`); the check a caller runs before executing an arbitrary
/// tree.
#[verifier::loop_isolation(false)]
pub fn check_executable(b: &Bag) -> (r: bool)
    ensures
        r == exec_wf(*b),
    decreases *b,
{
    match b {
        Bag::ViewPort(bag) => check_predictable(bag) && check_executable(bag),
        Bag::Distinct(bag) => check_executable(bag),
        Bag::Filter(pred, inner) => {
            let p_ok = match pred {
                Some(p) => check_pred(p),
                None => true,
            };
            let i_ok = match inner {
                Some(bag) => check_executable(bag),
                None => true,
            };
            p_ok && i_ok
        },
        Bag::Complement(bag) => check_executable(bag),
        Bag::Intersection(lh, rh) => check_predictable(lh) && check_predictable(rh)
            && check_executable(lh) && check_executable(rh),
        Bag::Union(lh, rh) => check_predictable(lh) && check_predictable(rh) && check_executable(
            lh,
        ) && check_executable(rh),
        Bag::Bag(bags) => {
            let mut i: usize = 0;
            while i < bags.len()
                invariant
                    0 <= i <= bags@.len(),
                    forall|j: int| 0 <= j < i ==> exec_wf(#[trigger] bags@[j]),
                decreases bags@.len() - i,
            {
                proof {
                    assert(decreases_to!(*bags => bags@));
                    assert(decreases_to!(bags@ => bags@[i as int]));
                }
                if !check_executable(&bags[i]) {
                    return false;
                }
                i = i + 1;
            }
            true
        },
        Bag::Inside(_) => true,
        Bag::Outside(shape) => match shape {
            Shape::HyperRectangle(_, corners) => corners.len() >= 2 && corners[1].0.len()
                == corners[0].0.len(),
            _ => true,
        },
    }
}

/// Whether every shape of a tree has a defined volume (see
/// `predict_wf`); what the predictor demands.
#[verifier::loop_isolation(false)]
pub fn check_predictable(b: &Bag) -> (r: bool)
    ensures
        r == predict_wf(*b),
    decreases *b,
{
    match b {
        Bag::ViewPort(bag) => check_predictable(bag),
        Bag::Distinct(bag) => check_predictable(bag),
        Bag::Filter(_, inner) => match inner {
            Some(bag) => check_predictable(bag),
            None => true,
        },
        Bag::Complement(bag) => check_predictable(bag),
        Bag::Intersection(lh, rh) => check_predictable(lh) && check_predictable(rh),
        Bag::Union(lh, rh) => check_predictable(lh) && check_predictable(rh),
        Bag::Bag(bags) => {
            let mut i: usize = 0;
            while i < bags.len()
                invariant
                    0 <= i <= bags@.len(),
                    forall|j: int| 0 <= j < i ==> predict_wf(#[trigger] bags@[j]),
                decreases bags@.len() - i,
            {
                proof {
                    assert(decreases_to!(*bags => bags@));
                    assert(decreases_to!(bags@ => bags@[i as int]));
                }
                if !check_predictable(&bags[i]) {
                    return false;
                }
                i = i + 1;
            }
            true
        },
        Bag::Inside(shape) => check_volume_wf(shape),
        Bag::Outside(shape) => check_volume_wf(shape),
    }
}

/// Whether a shape's volume is defined (see `volume_wf`).
fn check_volume_wf(shape: &Shape) -> (r: bool)
    ensures
        r == volume_wf(*shape),
{
    match shape {
        Shape::Nifti(_) => false,
        Shape::HyperRectangle(_, corners) => corners.len() == 2 && corners[1].0.len()
            == corners[0].0.len(),
        Shape::HyperSphere(_, p, _) => p.0.len() < usize::MAX - 2,
        Shape::Point(_, _) => true,
        Shape::Label(_, _) => true,
    }
}

/// Whether every string comparison of a predicate rests on a reserved
/// selector (see `pred_wf`); what predicate evaluation demands.
pub fn check_pred(p: &Predicate) -> (r: bool)
    ensures
        r == pred_wf(*p),
    decreases *p,
{
    match p {
        Predicate::Less(pe, _) => check_pos_expr(pe),
        Predicate::Greater(pe, _) => check_pos_expr(pe),
        Predicate::Equal(pe, _) => check_pos_expr(pe),
        Predicate::Not(inner) => check_pred(inner),
        Predicate::And(lh, rh) => check_pred(lh) && check_pred(rh),
        Predicate::Or(lh, rh) => check_pred(lh) && check_pred(rh),
    }
}

/// Whether a position expression's string comparisons rest on reserved
/// selectors (see `pos_expr_wf`).
fn check_pos_expr(pe: &crate::symbols::Position) -> (r: bool)
    ensures
        r == crate::evaluators::pos_expr_wf(*pe),
{
    match pe {
        crate::symbols::Position::StrCmp(sel, _) => check_selector(sel),
        crate::symbols::Position::StrCmpICase(sel, _) => check_selector(sel),
        _ => true,
    }
}

/// Whether a selector ends in a reserved identifier (see
/// `selector_reserved`).
fn check_selector(sel: &crate::symbols::LiteralSelector) -> (r: bool)
    ensures
        r == crate::evaluators::selector_reserved(*sel),
{
    if sel.0.len() == 0 {
        return false;
    }
    let name = &sel.0[sel.0.len() - 1].0;
    crate::strings::str_eq(name.as_str(), "id") || crate::strings::str_eq(name.as_str(), "type")
        || crate::strings::str_eq(name.as_str(), "reference_space")
}

} // verus!
