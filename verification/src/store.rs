//! The in-memory spatial store the engine evaluates against.
//!
//! The engine consumes the physical store through a small contract:
//! resolve a space identifier to its bounding box and total volume,
//! and return the stored objects matching an encoded shape, a set of
//! positions, or a label.  This module holds that contract as a plain
//! data model: a catalog of spaces and a list of stored objects, with
//! every query a verified scan.  Coordinates are binary64 bit patterns;
//! two positions are the same exactly when their patterns are.

use vstd::prelude::*;

use crate::errors::{ErrorV, QueryError, err_view};
use crate::fp;
use crate::fp::{Fp, fp_add, fp_sub, fp_mul, fp_le, FP_ZERO};
use vstd::string::StringExecFns;

verus! {

/// The property bag of a stored object: its identifier and its kind,
/// the type name the store reports for it.
#[derive(Debug)]
pub struct Properties {
    pub id: String,
    pub kind: String,
}

/// A spatial object as a query result: a position and its properties.
#[derive(Debug)]
pub struct Obj {
    pub position: Vec<Fp>,
    pub properties: Properties,
}

/// The mathematical shape of an object.
#[verifier::ext_equal]
pub ghost struct ObjV {
    pub position: Seq<Fp>,
    pub id: Seq<char>,
    pub kind: Seq<char>,
}

/// The view of an object.
pub open spec fn obj_view(o: Obj) -> ObjV {
    ObjV { position: o.position@, id: o.properties.id@, kind: o.properties.kind@ }
}

/// The views of a sequence of objects.
pub open spec fn objs_view(s: Seq<Obj>) -> Seq<ObjV> {
    Seq::new(
        s.len(),
        |i: int|
            if 0 <= i < s.len() {
                obj_view(s[i])
            } else {
                ObjV { position: Seq::empty(), id: Seq::empty(), kind: Seq::empty() }
            },
    )
}

/// A result set: space groups in order, each a space identifier and the
/// objects reported in it.  The same space may appear more than once
/// until a grouping operator merges it.
pub type ResultSet = Vec<(String, Vec<Obj>)>;

/// The mathematical shape of a result set.
pub type ResultSetV = Seq<(Seq<char>, Seq<ObjV>)>;

/// The view of a result set.
pub open spec fn rs_view(rs: Seq<(String, Vec<Obj>)>) -> ResultSetV {
    Seq::new(
        rs.len(),
        |i: int|
            if 0 <= i < rs.len() {
                (rs[i].0@, objs_view(rs[i].1@))
            } else {
                (Seq::<char>::empty(), Seq::<ObjV>::empty())
            },
    )
}

/// A named coordinate space: its bounding box, as two corners in raw
/// coordinates, and its total volume, both supplied by the store.
#[derive(Debug)]
pub struct Space {
    pub name: String,
    pub low: Vec<Fp>,
    pub high: Vec<Fp>,
    pub volume: Fp,
}

/// An object as the store holds it: in one reference space.
#[derive(Debug)]
pub struct StoredObject {
    pub space: String,
    pub object: Obj,
}

/// The store: the cores it serves, the spaces it knows, and the objects
/// it holds.
#[derive(Debug)]
pub struct Store {
    pub cores: Vec<String>,
    pub spaces: Vec<Space>,
    pub objects: Vec<StoredObject>,
}

/// The index of the first space of the given name, if any.
pub open spec fn find_space(spaces: Seq<Space>, name: Seq<char>) -> Option<int>
    decreases spaces.len(),
{
    if spaces.len() == 0 {
        None
    } else if spaces[0].name@ == name {
        Some(0int)
    } else {
        match find_space(spaces.drop_first(), name) {
            Some(i) => Some(i + 1),
            None => None,
        }
    }
}

/// `find_space` returns an in-range index of a space of that name.
pub proof fn lemma_find_space(spaces: Seq<Space>, name: Seq<char>)
    ensures
        find_space(spaces, name) matches Some(i) ==> 0 <= i < spaces.len() && spaces[i].name@
            == name,
        find_space(spaces, name) is None ==> forall|i: int|
            0 <= i < spaces.len() ==> (#[trigger] spaces[i]).name@ != name,
    decreases spaces.len(),
{
    if spaces.len() > 0 && spaces[0].name@ != name {
        lemma_find_space(spaces.drop_first(), name);
        assert forall|i: int| 1 <= i < spaces.len() implies #[trigger] spaces[i]
            == spaces.drop_first()[i - 1] by {}
    }
}

/// An encoded query shape handed to the store: an exact point, an
/// axis-aligned bounding box, or a hypersphere.
#[derive(Debug)]
pub enum QueryShape {
    Point(Vec<Fp>),
    BoundingBox(Vec<Fp>, Vec<Fp>),
    HyperSphere(Vec<Fp>, Fp),
}

/// Whether a position lies in the closed box between the two corners:
/// same dimension, and within bounds on every axis in the IEEE order.
pub open spec fn contains_box(low: Seq<Fp>, high: Seq<Fp>, p: Seq<Fp>) -> bool {
    &&& p.len() == low.len()
    &&& p.len() == high.len()
    &&& forall|i: int|
        0 <= i < p.len() ==> fp_le(low[i].0, #[trigger] p[i].0) && fp_le(p[i].0, high[i].0)
}

/// The squared distance between the first `n` coordinates of the two
/// positions, accumulated left to right in binary64 arithmetic.
pub open spec fn dist_sq_upto(c: Seq<Fp>, p: Seq<Fp>, n: int) -> u64
    decreases n,
{
    if n <= 0 {
        FP_ZERO
    } else {
        fp_add(
            dist_sq_upto(c, p, n - 1),
            fp_mul(fp_sub(p[n - 1].0, c[n - 1].0), fp_sub(p[n - 1].0, c[n - 1].0)),
        )
    }
}

/// Whether a position lies in the closed ball: same dimension, and the
/// squared distance to the center at most the squared radius.
pub open spec fn contains_sphere(c: Seq<Fp>, radius: Fp, p: Seq<Fp>) -> bool {
    &&& p.len() == c.len()
    &&& fp_le(dist_sq_upto(c, p, c.len() as int), fp_mul(radius.0, radius.0))
}

/// The mathematical shape of an encoded query shape.
#[verifier::ext_equal]
pub ghost enum QShapeV {
    Point(Seq<Fp>),
    BoundingBox(Seq<Fp>, Seq<Fp>),
    HyperSphere(Seq<Fp>, u64),
}

/// The view of an encoded query shape.
pub open spec fn qshape_view(q: QueryShape) -> QShapeV {
    match q {
        QueryShape::Point(v) => QShapeV::Point(v@),
        QueryShape::BoundingBox(low, high) => QShapeV::BoundingBox(low@, high@),
        QueryShape::HyperSphere(c, radius) => QShapeV::HyperSphere(c@, radius.0),
    }
}

/// Whether a position matches an encoded shape.  A point matches by
/// exact bit pattern, as the store indexes encoded coordinates.
pub open spec fn shape_matches(q: QShapeV, p: Seq<Fp>) -> bool {
    match q {
        QShapeV::Point(v) => p == v,
        QShapeV::BoundingBox(low, high) => contains_box(low, high, p),
        QShapeV::HyperSphere(c, radius) => contains_sphere(c, Fp(radius), p),
    }
}

/// Whether the two coordinate vectors hold the same bit patterns.
pub fn pos_bits_eq(a: &Vec<Fp>, b: &Vec<Fp>) -> (r: bool)
    ensures
        r == (a@ == b@),
{
    if a.len() != b.len() {
        return false;
    }
    let mut i: usize = 0;
    while i < a.len()
        invariant
            0 <= i <= a@.len(),
            a@.len() == b@.len(),
            forall|j: int| 0 <= j < i ==> a@[j] == b@[j],
        decreases a@.len() - i,
    {
        if a[i].0 != b[i].0 {
            proof {
                assert(a@[i as int] != b@[i as int]);
            }
            return false;
        }
        i = i + 1;
    }
    proof {
        assert(a@ =~= b@);
    }
    true
}

/// Whether a position lies in the closed box (see `contains_box`).
pub fn in_box(low: &Vec<Fp>, high: &Vec<Fp>, p: &Vec<Fp>) -> (r: bool)
    ensures
        r == contains_box(low@, high@, p@),
{
    if p.len() != low.len() || p.len() != high.len() {
        return false;
    }
    let mut i: usize = 0;
    while i < p.len()
        invariant
            0 <= i <= p@.len(),
            p@.len() == low@.len(),
            p@.len() == high@.len(),
            forall|j: int|
                0 <= j < i ==> fp_le(low@[j].0, #[trigger] p@[j].0) && fp_le(
                    p@[j].0,
                    high@[j].0,
                ),
        decreases p@.len() - i,
    {
        if !fp::le(low[i], p[i]) || !fp::le(p[i], high[i]) {
            proof {
                assert(!(fp_le(low@[i as int].0, p@[i as int].0) && fp_le(
                    p@[i as int].0,
                    high@[i as int].0,
                )));
            }
            return false;
        }
        i = i + 1;
    }
    true
}

/// Whether a position lies in the closed ball (see `contains_sphere`).
pub fn in_sphere(c: &Vec<Fp>, radius: Fp, p: &Vec<Fp>) -> (r: bool)
    ensures
        r == contains_sphere(c@, radius, p@),
{
    if p.len() != c.len() {
        return false;
    }
    let mut d = Fp(FP_ZERO);
    let mut i: usize = 0;
    while i < c.len()
        invariant
            0 <= i <= c@.len(),
            p@.len() == c@.len(),
            d.0 == dist_sq_upto(c@, p@, i as int),
        decreases c@.len() - i,
    {
        let diff = fp::sub(p[i], c[i]);
        d = fp::add(d, fp::mul(diff, diff));
        i = i + 1;
    }
    fp::le(d, fp::mul(radius, radius))
}

/// Whether a position matches an encoded shape (see `shape_matches`).
pub fn query_shape_contains(q: &QueryShape, p: &Vec<Fp>) -> (r: bool)
    ensures
        r == shape_matches(qshape_view(*q), p@),
{
    match q {
        QueryShape::Point(v) => pos_bits_eq(p, v),
        QueryShape::BoundingBox(low, high) => in_box(low, high, p),
        QueryShape::HyperSphere(c, radius) => in_sphere(c, *radius, p),
    }
}

impl Obj {
    /// An owned copy of the object.
    pub fn duplicate(&self) -> (r: Obj)
        ensures
            obj_view(r) == obj_view(*self),
    {
        let mut position: Vec<Fp> = Vec::new();
        let mut i: usize = 0;
        while i < self.position.len()
            invariant
                0 <= i <= self.position@.len(),
                position@ =~= self.position@.take(i as int),
            decreases self.position@.len() - i,
        {
            position.push(self.position[i]);
            proof {
                assert(position@ =~= self.position@.take(i + 1));
            }
            i = i + 1;
        }
        proof {
            assert(self.position@.take(self.position@.len() as int) =~= self.position@);
        }
        let r = Obj {
            position,
            properties: Properties {
                id: self.properties.id.clone(),
                kind: self.properties.kind.clone(),
            },
        };
        proof {
            assert(obj_view(r) =~= obj_view(*self));
        }
        r
    }
}

/// Whether the two objects are the same: same position bits, same
/// identifier, same type name.
pub fn obj_eq(a: &Obj, b: &Obj) -> (r: bool)
    ensures
        r == (obj_view(*a) == obj_view(*b)),
{
    let r = pos_bits_eq(&a.position, &b.position) && a.properties.id == b.properties.id
        && a.properties.kind == b.properties.kind;
    proof {
        if r {
            assert(obj_view(*a) =~= obj_view(*b));
        }
    }
    r
}

/// The objects among the first `n` stored ones that lie in the given
/// space and match the shape, in store order.
pub open spec fn matching_objs_upto(
    objs: Seq<StoredObject>,
    space: Seq<char>,
    q: QShapeV,
    n: int,
) -> Seq<ObjV>
    decreases n,
{
    if n <= 0 {
        Seq::empty()
    } else {
        let rest = matching_objs_upto(objs, space, q, n - 1);
        let so = objs[n - 1];
        if so.space@ == space && shape_matches(q, so.object.position@) {
            rest.push(obj_view(so.object))
        } else {
            rest
        }
    }
}

/// What a shape query returns: the matching objects of that space as a
/// single group, or nothing at all when no object matches.
pub open spec fn spec_get_by_shape(st: Store, q: QShapeV, space: Seq<char>) -> ResultSetV {
    let m = matching_objs_upto(st.objects@, space, q, st.objects@.len() as int);
    if m.len() == 0 {
        Seq::empty()
    } else {
        seq![(space, m)]
    }
}

/// The objects among the first `n` stored ones that lie in the given
/// space at one of the given positions, in store order.
pub open spec fn matching_pos_upto(
    objs: Seq<StoredObject>,
    space: Seq<char>,
    ps: Seq<Seq<Fp>>,
    n: int,
) -> Seq<ObjV>
    decreases n,
{
    if n <= 0 {
        Seq::empty()
    } else {
        let rest = matching_pos_upto(objs, space, ps, n - 1);
        let so = objs[n - 1];
        if so.space@ == space && (exists|j: int|
            0 <= j < ps.len() && #[trigger] ps[j] == so.object.position@) {
            rest.push(obj_view(so.object))
        } else {
            rest
        }
    }
}

/// What a position-set query returns (see `matching_pos_upto`).
/// The views of a list of coordinate vectors.
pub open spec fn poss_view(ps: Seq<Vec<Fp>>) -> Seq<Seq<Fp>> {
    Seq::new(
        ps.len(),
        |i: int|
            if 0 <= i < ps.len() {
                ps[i]@
            } else {
                Seq::<Fp>::empty()
            },
    )
}

pub open spec fn spec_get_by_positions(st: Store, ps: Seq<Seq<Fp>>, space: Seq<char>) -> ResultSetV {
    let m = matching_pos_upto(st.objects@, space, ps, st.objects@.len() as int);
    if m.len() == 0 {
        Seq::empty()
    } else {
        seq![(space, m)]
    }
}

/// The (space, object) pairs among the first `n` stored ones whose
/// identifier is the given label, in store order.
pub open spec fn matching_label_upto(objs: Seq<StoredObject>, label: Seq<char>, n: int) -> Seq<
    (Seq<char>, Seq<ObjV>),
>
    decreases n,
{
    if n <= 0 {
        Seq::empty()
    } else {
        let rest = matching_label_upto(objs, label, n - 1);
        let so = objs[n - 1];
        if so.object.properties.id@ == label {
            rest.push((so.space@, seq![obj_view(so.object)]))
        } else {
            rest
        }
    }
}

/// What a label query returns: the matching objects grouped by their
/// spaces, each space once, in order of first appearance.
pub open spec fn spec_get_by_label(st: Store, label: Seq<char>) -> ResultSetV {
    spec_group(matching_label_upto(st.objects@, label, st.objects@.len() as int))
}

/// The index of the first group for the given space, if any.
pub open spec fn find_group(groups: ResultSetV, space: Seq<char>) -> Option<int>
    decreases groups.len(),
{
    if groups.len() == 0 {
        None
    } else if groups[0].0 == space {
        Some(0int)
    } else {
        match find_group(groups.drop_first(), space) {
            Some(i) => Some(i + 1),
            None => None,
        }
    }
}

/// `find_group` returns an in-range index of a group for that space,
/// and `None` only when no group carries it.
pub proof fn lemma_find_group(groups: ResultSetV, space: Seq<char>)
    ensures
        find_group(groups, space) matches Some(i) ==> 0 <= i < groups.len() && groups[i].0
            == space,
        find_group(groups, space) is None ==> forall|i: int|
            0 <= i < groups.len() ==> (#[trigger] groups[i]).0 != space,
    decreases groups.len(),
{
    if groups.len() > 0 && groups[0].0 != space {
        lemma_find_group(groups.drop_first(), space);
        assert forall|i: int| 1 <= i < groups.len() implies #[trigger] groups[i]
            == groups.drop_first()[i - 1] by {}
    }
}

/// Merge one group into grouped results: append its objects to the
/// first group of the same space, or add a new group at the end.
pub open spec fn group_insert(groups: ResultSetV, space: Seq<char>, objs: Seq<ObjV>) -> ResultSetV {
    match find_group(groups, space) {
        Some(i) => groups.update(i, (space, groups[i].1 + objs)),
        None => groups.push((space, objs)),
    }
}

/// Group the first `n` entries of a result set by space, keeping the
/// order of first appearance and the order of objects.
pub open spec fn group_upto(rs: ResultSetV, n: int) -> ResultSetV
    decreases n,
{
    if n <= 0 {
        Seq::empty()
    } else {
        group_insert(group_upto(rs, n - 1), rs[n - 1].0, rs[n - 1].1)
    }
}

/// Group a result set by space, keeping the order of first appearance;
/// every space that appears stays, even with no objects.
pub open spec fn spec_group(rs: ResultSetV) -> ResultSetV {
    group_upto(rs, rs.len() as int)
}

/// The first `n` objects with every repetition of an earlier object
/// dropped; order of first occurrences kept.
pub open spec fn dedup_upto(s: Seq<ObjV>, n: int) -> Seq<ObjV>
    decreases n,
{
    if n <= 0 {
        Seq::empty()
    } else {
        let rest = dedup_upto(s, n - 1);
        if rest.contains(s[n - 1]) {
            rest
        } else {
            rest.push(s[n - 1])
        }
    }
}

/// A sequence of objects with repetitions dropped (see `dedup_upto`).
pub open spec fn spec_dedup(s: Seq<ObjV>) -> Seq<ObjV> {
    dedup_upto(s, s.len() as int)
}

/// The distinct operator's model: group by space, then de-duplicate
/// within each group independently; objects in different spaces are
/// never duplicates of each other.
pub open spec fn spec_distinct(rs: ResultSetV) -> ResultSetV {
    spec_group(rs).map_values(|g: (Seq<char>, Seq<ObjV>)| (g.0, spec_dedup(g.1)))
}

/// Whether the store serves a core of the given identifier.
pub open spec fn spec_has_core(st: Store, core_id: Seq<char>) -> bool {
    exists|j: int| 0 <= j < st.cores@.len() && (#[trigger] st.cores@[j])@ == core_id
}

impl Store {
    /// Resolve a space identifier to its catalog entry; the error names
    /// the unknown space.
    pub fn space(&self, name: &str) -> (r: Result<&Space, QueryError>)
        ensures
            match r {
                Ok(sp) => find_space(self.spaces@, name@) matches Some(i) && *sp
                    == self.spaces@[i],
                Err(e) => find_space(self.spaces@, name@) is None && err_view(e)
                    == ErrorV::UnknownSpace(name@),
            },
    {
        let mut i: usize = 0;
        while i < self.spaces.len()
            invariant
                0 <= i <= self.spaces@.len(),
                forall|j: int| 0 <= j < i ==> (#[trigger] self.spaces@[j]).name@ != name@,
            decreases self.spaces@.len() - i,
        {
            if crate::strings::str_eq(self.spaces[i].name.as_str(), name) {
                proof {
                    lemma_find_space_hit(self.spaces@, name@, i as int);
                }
                return Ok(&self.spaces[i]);
            }
            i = i + 1;
        }
        proof {
            lemma_find_space(self.spaces@, name@);
        }
        Err(QueryError::UnknownSpace(String::from_str(name)))
    }

    /// Whether the store serves a core of the given identifier.
    pub fn has_core(&self, core_id: &str) -> (r: bool)
        ensures
            r == spec_has_core(*self, core_id@),
    {
        let mut i: usize = 0;
        while i < self.cores.len()
            invariant
                0 <= i <= self.cores@.len(),
                forall|j: int| 0 <= j < i ==> (#[trigger] self.cores@[j])@ != core_id@,
            decreases self.cores@.len() - i,
        {
            if crate::strings::str_eq(self.cores[i].as_str(), core_id) {
                return true;
            }
            i = i + 1;
        }
        false
    }

    /// The stored objects of the given space matching the encoded
    /// shape, as one group, or no group at all when none matches.
    pub fn get_by_shape(&self, q: &QueryShape, space_id: &str) -> (r: ResultSet)
        ensures
            rs_view(r@) == spec_get_by_shape(*self, qshape_view(*q), space_id@),
    {
        let mut found: Vec<Obj> = Vec::new();
        let mut i: usize = 0;
        while i < self.objects.len()
            invariant
                0 <= i <= self.objects@.len(),
                objs_view(found@) =~= matching_objs_upto(
                    self.objects@,
                    space_id@,
                    qshape_view(*q),
                    i as int,
                ),
            decreases self.objects@.len() - i,
        {
            let so = &self.objects[i];
            if crate::strings::str_eq(so.space.as_str(), space_id) && query_shape_contains(
                q,
                &so.object.position,
            ) {
                found.push(so.object.duplicate());
            }
            i = i + 1;
        }
        if found.len() == 0 {
            proof {
                assert(rs_view(Seq::<(String, Vec<Obj>)>::empty()) =~= Seq::<
                    (Seq<char>, Seq<ObjV>),
                >::empty());
            }
            Vec::new()
        } else {
            let mut r: ResultSet = Vec::new();
            r.push((String::from_str(space_id), found));
            proof {
                assert(rs_view(r@) =~= spec_get_by_shape(*self, qshape_view(*q), space_id@));
            }
            r
        }
    }
}

/// Hitting a name at index `i` after missing everywhere before it means
/// `find_space` lands on `i`.
pub proof fn lemma_find_space_hit(spaces: Seq<Space>, name: Seq<char>, i: int)
    requires
        0 <= i < spaces.len(),
        spaces[i].name@ == name,
        forall|j: int| 0 <= j < i ==> (#[trigger] spaces[j]).name@ != name,
    ensures
        find_space(spaces, name) == Some(i),
    decreases i,
{
    if i > 0 {
        lemma_find_space_hit(spaces.drop_first(), name, i - 1);
        assert forall|j: int| 0 <= j < i - 1 implies (#[trigger] spaces.drop_first()[j]).name@
            != name by {
            assert(spaces.drop_first()[j] == spaces[j + 1]);
        }
        assert(spaces.drop_first()[i - 1] == spaces[i]);
    }
}

/// Whether some object in the sequence sits at the given position.
pub open spec fn has_position(objs: Seq<ObjV>, p: Seq<Fp>) -> bool {
    exists|j: int| 0 <= j < objs.len() && (#[trigger] objs[j]).position == p
}

/// Whether some object in the group list sits at the given position
/// (used for probe sets built from grouped results).
pub fn objs_have_position(objs: &Vec<Obj>, p: &Vec<Fp>) -> (r: bool)
    ensures
        r == has_position(objs_view(objs@), p@),
{
    let mut i: usize = 0;
    while i < objs.len()
        invariant
            0 <= i <= objs@.len(),
            forall|j: int| 0 <= j < i ==> (#[trigger] objs_view(objs@)[j]).position != p@,
        decreases objs@.len() - i,
    {
        if pos_bits_eq(&objs[i].position, p) {
            proof {
                assert(objs_view(objs@)[i as int].position == p@);
            }
            return true;
        }
        i = i + 1;
    }
    false
}

/// Hitting a space at index `i` after missing everywhere before it
/// means `find_group` lands on `i`.
pub proof fn lemma_find_group_hit(groups: ResultSetV, space: Seq<char>, i: int)
    requires
        0 <= i < groups.len(),
        groups[i].0 == space,
        forall|j: int| 0 <= j < i ==> (#[trigger] groups[j]).0 != space,
    ensures
        find_group(groups, space) == Some(i),
    decreases i,
{
    if i > 0 {
        lemma_find_group_hit(groups.drop_first(), space, i - 1);
        assert forall|j: int| 0 <= j < i - 1 implies (#[trigger] groups.drop_first()[j]).0
            != space by {
            assert(groups.drop_first()[j] == groups[j + 1]);
        }
        assert(groups.drop_first()[i - 1] == groups[i]);
    }
}

/// The views of two concatenated object lists concatenate.
pub proof fn lemma_objs_view_concat(a: Seq<Obj>, b: Seq<Obj>)
    ensures
        objs_view(a + b) =~= objs_view(a) + objs_view(b),
{
}

/// Removing an element and inserting another at the same place is an
/// update.
proof fn lemma_remove_insert<T>(s: Seq<T>, j: int, v: T)
    requires
        0 <= j < s.len(),
    ensures
        s.remove(j).insert(j, v) =~= s.update(j, v),
{
}

/// Removing the front element leaves the tail.
pub proof fn lemma_remove_front_pub<T>(s: Seq<T>)
    requires
        s.len() > 0,
    ensures
        s.remove(0) =~= s.skip(1),
{
}

/// Merge one group into grouped results, appending to the first group
/// of the same space or adding a new group at the end (the executable
/// form of `group_insert`).
#[verifier::loop_isolation(false)]
fn merge_group(out: &mut ResultSet, space: String, objs: Vec<Obj>, Ghost(sv): Ghost<Seq<char>>, Ghost(ov): Ghost<Seq<ObjV>>)
    requires
        sv == space@,
        ov == objs_view(objs@),
    ensures
        rs_view(final(out)@) == group_insert(rs_view(old(out)@), sv, ov),
{
    let ghost gv = rs_view(out@);
    let mut j: usize = 0;
    while j < out.len()
        invariant
            0 <= j <= out@.len(),
            gv == rs_view(out@),
            ov == objs_view(objs@),
            forall|k: int| 0 <= k < j ==> (#[trigger] gv[k]).0 != space@,
        decreases out@.len() - j,
    {
        if crate::strings::str_eq(out[j].0.as_str(), space.as_str()) {
            proof {
                assert(gv[j as int].0 == space@);
                lemma_find_group_hit(gv, space@, j as int);
            }
            let ghost prev_out = out@;
            let mut grp = out.remove(j);
            let mut extra = objs;
            let ghost old_grp = grp.1@;
            grp.1.append(&mut extra);
            proof {
                lemma_objs_view_concat(old_grp, extra@);
                assert(objs_view(grp.1@) =~= objs_view(old_grp) + ov);
            }
            out.insert(j, grp);
            proof {
                lemma_remove_insert(prev_out, j as int, grp);
                assert(rs_view(out@) =~~= gv.update(j as int, (space@, gv[j as int].1 + ov)));
                assert(find_group(gv, space@) == Some(j as int));
                assert(group_insert(gv, space@, ov) == gv.update(
                    j as int,
                    (space@, gv[j as int].1 + ov),
                ));
                assert(rs_view(out@) == group_insert(gv, space@, ov));
            }
            return ;
        }
        j = j + 1;
    }
    proof {
        lemma_find_group(gv, space@);
    }
    out.push((space, objs));
    proof {
        assert(find_group(gv, space@) is None);
        assert(rs_view(out@) =~~= gv.push((space@, ov)));
        assert(rs_view(out@) == group_insert(gv, space@, ov));
    }
}

/// Group a result set by space: every group of the same space merges
/// into the first one, keeping the order of first appearance and the
/// order of objects; spaces with no objects stay present.
#[verifier::loop_isolation(false)]
pub fn group_by_space(rs: ResultSet) -> (r: ResultSet)
    ensures
        rs_view(r@) == spec_group(rs_view(rs@)),
{
    let ghost orig = rs_view(rs@);
    let mut rest = rs;
    let mut out: ResultSet = Vec::new();
    let ghost k: int = 0;
    proof {
        assert(rs_view(rest@) =~= orig.skip(0));
        assert(rs_view(out@) =~= group_upto(orig, 0));
    }
    while rest.len() > 0
        invariant
            0 <= k <= orig.len(),
            rs_view(rest@) =~= orig.skip(k),
            rs_view(out@) == group_upto(orig, k),
        decreases rest@.len(),
    {
        let ghost prev = rest@;
        let g = rest.remove(0);
        proof {
            lemma_remove_front_pub(prev);
            assert((g.0@, objs_view(g.1@)) == rs_view(prev)[0]);
            assert(rs_view(prev)[0] == orig.skip(k)[0]);
            assert(prev.len() > 0);
            assert(orig.skip(k).len() == orig.len() - k);
            assert(k < orig.len());
            assert(orig.skip(k)[0] == orig[k]);
            assert(rs_view(rest@) =~= orig.skip(k + 1)) by {
                assert forall|x: int| 0 <= x < rest@.len() implies rs_view(rest@)[x] == orig.skip(
                    k + 1,
                )[x] by {
                    assert(rest@[x] == prev[x + 1]);
                    assert(rs_view(prev)[x + 1] == orig.skip(k)[x + 1]);
                }
            }
        }
        let ghost sv = g.0@;
        let ghost ov = objs_view(g.1@);
        merge_group(&mut out, g.0, g.1, Ghost(sv), Ghost(ov));
        proof {
            k = k + 1;
            assert(rs_view(out@) == group_upto(orig, k));
        }
    }
    proof {
        assert(rs_view(rest@).len() == 0);
        assert(k == orig.len());
    }
    out
}

/// Drop every repetition of an earlier object, keeping first
/// occurrences in order (the executable form of `spec_dedup`).
#[verifier::loop_isolation(false)]
pub fn dedup_objs(objs: Vec<Obj>) -> (r: Vec<Obj>)
    ensures
        objs_view(r@) == spec_dedup(objs_view(objs@)),
{
    let ghost orig = objs_view(objs@);
    let mut rest = objs;
    let mut out: Vec<Obj> = Vec::new();
    let ghost k: int = 0;
    proof {
        assert(objs_view(rest@) =~= orig.skip(0));
        assert(objs_view(out@) =~= dedup_upto(orig, 0));
    }
    while rest.len() > 0
        invariant
            0 <= k <= orig.len(),
            objs_view(rest@) =~= orig.skip(k),
            objs_view(out@) == dedup_upto(orig, k),
        decreases rest@.len(),
    {
        let ghost prev = rest@;
        let o = rest.remove(0);
        proof {
            lemma_remove_front_pub(prev);
            assert(obj_view(o) == objs_view(prev)[0]);
            assert(objs_view(prev)[0] == orig.skip(k)[0]);
            assert(prev.len() > 0);
            assert(orig.skip(k).len() == orig.len() - k);
            assert(k < orig.len());
            assert(orig.skip(k)[0] == orig[k]);
            assert(objs_view(rest@) =~= orig.skip(k + 1)) by {
                assert forall|x: int| 0 <= x < rest@.len() implies objs_view(rest@)[x]
                    == orig.skip(k + 1)[x] by {
                    assert(rest@[x] == prev[x + 1]);
                    assert(objs_view(prev)[x + 1] == orig.skip(k)[x + 1]);
                }
            }
        }
        let mut seen = false;
        let mut j: usize = 0;
        while j < out.len()
            invariant
                0 <= j <= out@.len(),
                seen ==> objs_view(out@).contains(obj_view(o)),
                !seen ==> forall|x: int| 0 <= x < j ==> (#[trigger] objs_view(out@)[x]) != obj_view(
                    o,
                ),
            decreases out@.len() - j,
        {
            if !seen && obj_eq(&out[j], &o) {
                proof {
                    assert(objs_view(out@)[j as int] == obj_view(o));
                }
                seen = true;
            }
            j = j + 1;
        }
        if !seen {
            let ghost prev_out = objs_view(out@);
            out.push(o);
            proof {
                assert(!prev_out.contains(orig[k]));
                k = k + 1;
                assert(objs_view(out@) =~= dedup_upto(orig, k));
            }
        } else {
            proof {
                k = k + 1;
                assert(objs_view(out@) =~= dedup_upto(orig, k));
            }
        }
    }
    proof {
        assert(objs_view(rest@).len() == 0);
        assert(k == orig.len());
    }
    out
}

/// Group a result set by space, then drop duplicate objects within each
/// group independently (the executable form of `spec_distinct`).
#[verifier::loop_isolation(false)]
pub fn distinct_helper(rs: ResultSet) -> (r: ResultSet)
    ensures
        rs_view(r@) == spec_distinct(rs_view(rs@)),
{
    let grouped = group_by_space(rs);
    let ghost gv = rs_view(grouped@);
    let mut rest = grouped;
    let mut out: ResultSet = Vec::new();
    let ghost k: int = 0;
    proof {
        assert(rs_view(rest@) =~= gv.skip(0));
    }
    while rest.len() > 0
        invariant
            0 <= k <= gv.len(),
            rs_view(rest@) =~= gv.skip(k),
            rs_view(out@).len() == k,
            forall|x: int| 0 <= x < k ==> (#[trigger] rs_view(out@)[x]) == (
                gv[x].0,
                spec_dedup(gv[x].1),
            ),
        decreases rest@.len(),
    {
        let ghost prev = rest@;
        let g = rest.remove(0);
        proof {
            lemma_remove_front_pub(prev);
            assert((g.0@, objs_view(g.1@)) == rs_view(prev)[0]);
            assert(rs_view(prev)[0] == gv.skip(k)[0]);
            assert(prev.len() > 0);
            assert(gv.skip(k).len() == gv.len() - k);
            assert(k < gv.len());
            assert(gv.skip(k)[0] == gv[k]);
            assert(rs_view(rest@) =~= gv.skip(k + 1)) by {
                assert forall|x: int| 0 <= x < rest@.len() implies rs_view(rest@)[x] == gv.skip(
                    k + 1,
                )[x] by {
                    assert(rest@[x] == prev[x + 1]);
                    assert(rs_view(prev)[x + 1] == gv.skip(k)[x + 1]);
                }
            }
        }
        let deduped = dedup_objs(g.1);
        let ghost prev_out = out@;
        out.push((g.0, deduped));
        proof {
            assert(objs_view(deduped@) == spec_dedup(gv[k].1));
            k = k + 1;
            assert(rs_view(out@).len() == k);
            assert forall|x: int| 0 <= x < k implies (#[trigger] rs_view(out@)[x]) == (
                gv[x].0,
                spec_dedup(gv[x].1),
            ) by {
                if x < k - 1 {
                    assert(out@[x] == prev_out[x]);
                    assert(rs_view(out@)[x] == rs_view(prev_out)[x]);
                } else {
                    assert(out@[x] == (g.0, deduped));
                }
            }
        }
    }
    proof {
        assert(rs_view(rest@).len() == 0);
        assert(k == gv.len());
        assert(rs_view(out@) =~= spec_distinct(rs_view(rs@)));
    }
    out
}

/// The literal coordinates standing for raw binary64 coordinates.
pub open spec fn lit_of_bits(p: Seq<Fp>) -> Seq<crate::symbols::LiteralNumber> {
    Seq::new(
        p.len(),
        |i: int|
            if 0 <= i < p.len() {
                crate::symbols::LiteralNumber::Float(p[i])
            } else {
                crate::symbols::LiteralNumber::Int(0)
            },
    )
}

/// A literal position holding the raw coordinates as binary64 values.
pub fn position_of_bits(p: &Vec<Fp>) -> (r: crate::symbols::LiteralPosition)
    ensures
        r.0@ == lit_of_bits(p@),
{
    let mut v: Vec<crate::symbols::LiteralNumber> = Vec::new();
    let mut i: usize = 0;
    while i < p.len()
        invariant
            0 <= i <= p@.len(),
            v@.len() == i,
            forall|j: int|
                0 <= j < i ==> v@[j] == crate::symbols::LiteralNumber::Float(#[trigger] p@[j]),
        decreases p@.len() - i,
    {
        v.push(crate::symbols::LiteralNumber::Float(p[i]));
        i = i + 1;
    }
    proof {
        assert(v@ =~= lit_of_bits(p@));
    }
    crate::symbols::LiteralPosition(v)
}

impl Store {
    /// The stored objects of the given space sitting at one of the given
    /// positions, as one group, or no group at all when none matches.
    pub fn get_by_positions(&self, positions: &Vec<Vec<Fp>>, space_id: &str) -> (r: ResultSet)
        ensures
            rs_view(r@) == spec_get_by_positions(*self, poss_view(positions@), space_id@),
    {
        let mut found: Vec<Obj> = Vec::new();
        let mut i: usize = 0;
        while i < self.objects.len()
            invariant
                0 <= i <= self.objects@.len(),
                objs_view(found@) =~= matching_pos_upto(
                    self.objects@,
                    space_id@,
                    poss_view(positions@),
                    i as int,
                ),
            decreases self.objects@.len() - i,
        {
            let so = &self.objects[i];
            if crate::strings::str_eq(so.space.as_str(), space_id) && position_listed(
                positions,
                &so.object.position,
            ) {
                found.push(so.object.duplicate());
            }
            i = i + 1;
        }
        if found.len() == 0 {
            proof {
                assert(rs_view(Seq::<(String, Vec<Obj>)>::empty()) =~= Seq::<
                    (Seq<char>, Seq<ObjV>),
                >::empty());
            }
            Vec::new()
        } else {
            let mut r: ResultSet = Vec::new();
            r.push((String::from_str(space_id), found));
            proof {
                assert(rs_view(r@) =~= spec_get_by_positions(*self, poss_view(positions@), space_id@));
            }
            r
        }
    }

    /// The stored objects whose identifier is the given label, grouped
    /// by their spaces in order of first appearance.
    pub fn get_by_label(&self, label: &str) -> (r: ResultSet)
        ensures
            rs_view(r@) == spec_get_by_label(*self, label@),
    {
        let mut flat: ResultSet = Vec::new();
        let mut i: usize = 0;
        while i < self.objects.len()
            invariant
                0 <= i <= self.objects@.len(),
                rs_view(flat@) =~= matching_label_upto(self.objects@, label@, i as int),
            decreases self.objects@.len() - i,
        {
            let so = &self.objects[i];
            if crate::strings::str_eq(so.object.properties.id.as_str(), label) {
                let mut single: Vec<Obj> = Vec::new();
                single.push(so.object.duplicate());
                proof {
                    assert(objs_view(single@) =~= seq![obj_view(so.object)]);
                }
                flat.push((so.space.clone(), single));
                proof {
                    assert(rs_view(flat@) =~= matching_label_upto(
                        self.objects@,
                        label@,
                        i + 1,
                    ));
                }
            }
            i = i + 1;
        }
        group_by_space(flat)
    }
}

/// Whether the position appears in the list, by exact bit pattern.
pub fn position_listed(positions: &Vec<Vec<Fp>>, p: &Vec<Fp>) -> (r: bool)
    ensures
        r == exists|j: int|
            0 <= j < positions@.len() && #[trigger] poss_view(positions@)[j] == p@,
{
    let mut i: usize = 0;
    while i < positions.len()
        invariant
            0 <= i <= positions@.len(),
            forall|j: int| 0 <= j < i ==> #[trigger] poss_view(positions@)[j] != p@,
        decreases positions@.len() - i,
    {
        if pos_bits_eq(&positions[i], p) {
            proof {
                assert(poss_view(positions@)[i as int] == p@);
            }
            return true;
        }
        i = i + 1;
    }
    false
}

} // verus!
