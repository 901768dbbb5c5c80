//! The abstract syntax tree of the query language, and the value model
//! of its literals.

use vstd::prelude::*;

use crate::fp;
use crate::fp::{Fp, fp_add, fp_sub, fp_mul, fp_div, fp_eq, fp_gt, fp_of_int, fp_of_uint, fp_cmp};
use crate::fp::{FP_ZERO, FP_ONE, FP_TWO, FP_PI, FP_EPSILON};
use crate::types::{LiteralTypes, TypeV, type_view};

verus! {

/// A literal number of the query language: a 64-bit signed integer or
/// an IEEE binary64 value.
#[derive(Clone, Copy, Debug)]
pub enum LiteralNumber {
    Int(i64),
    Float(Fp),
}

/// The bit pattern of the binary64 value a literal number stands for.
pub open spec fn num_bits(n: LiteralNumber) -> u64 {
    match n {
        LiteralNumber::Int(i) => fp_of_int(i),
        LiteralNumber::Float(f) => f.0,
    }
}

/// The structural type of a literal number.
pub open spec fn num_type(n: LiteralNumber) -> TypeV {
    match n {
        LiteralNumber::Int(_) => TypeV::Int,
        LiteralNumber::Float(_) => TypeV::Float,
    }
}

/// The one-directional value equality of the comparison rule:
/// an integer equals only the same integer; a binary64 value equals a
/// binary64 value or an integer of the same numeric value.  The
/// coercion runs right-to-left only: `Int` on the left never equals a
/// `Float` on the right.
pub open spec fn num_eq(l: LiteralNumber, r: LiteralNumber) -> bool {
    match l {
        LiteralNumber::Int(li) => match r {
            LiteralNumber::Int(ri) => li == ri,
            LiteralNumber::Float(_) => false,
        },
        LiteralNumber::Float(lf) => fp_eq(lf.0, num_bits(r)),
    }
}

impl LiteralNumber {
    /// The binary64 value the number stands for.
    pub fn to_fp(&self) -> (r: Fp)
        ensures
            r.0 == num_bits(*self),
    {
        match self {
            LiteralNumber::Int(i) => fp::of_int(*i),
            LiteralNumber::Float(f) => *f,
        }
    }

    /// Whether this number equals the other under the one-directional
    /// coercion rule (see `num_eq`).
    pub fn coerced_eq(&self, other: &LiteralNumber) -> (r: bool)
        ensures
            r == num_eq(*self, *other),
    {
        match self {
            LiteralNumber::Int(li) => match other {
                LiteralNumber::Int(ri) => *li == *ri,
                LiteralNumber::Float(_) => false,
            },
            LiteralNumber::Float(lf) => fp::eq(*lf, other.to_fp()),
        }
    }
}

/// An ordered sequence of literal numbers: a position in some space.
/// Its dimension is the length of the sequence.
#[derive(Debug)]
pub struct LiteralPosition(pub Vec<LiteralNumber>);

/// The bit pattern of the squared geometric length of a position: the
/// sum of the squares of its coordinates, accumulated left to right in
/// binary64 arithmetic.
pub open spec fn pos_length(s: Seq<LiteralNumber>) -> u64
    decreases s.len(),
{
    if s.len() == 0 {
        FP_ZERO
    } else {
        fp_add(pos_length(s.drop_last()), fp_mul(num_bits(s.last()), num_bits(s.last())))
    }
}

/// The structural type of a position: a vector of its coordinate types.
pub open spec fn pos_type(s: Seq<LiteralNumber>) -> TypeV {
    TypeV::Vector(
        Seq::new(
            s.len(),
            |i: int|
                if 0 <= i < s.len() {
                    num_type(s[i])
                } else {
                    TypeV::Int
                },
        ),
    )
}

/// Element-wise equality of two positions under the one-directional
/// coercion rule: same dimension, and each left coordinate equals the
/// right one at the same index.
pub open spec fn pos_eq(l: Seq<LiteralNumber>, r: Seq<LiteralNumber>) -> bool {
    l.len() == r.len() && forall|i: int| 0 <= i < l.len() ==> num_eq(#[trigger] l[i], r[i])
}

/// The geometric order of two positions: positions of different
/// dimensions are incomparable; otherwise they compare by squared
/// length in the IEEE order.
pub open spec fn pos_cmp(l: Seq<LiteralNumber>, r: Seq<LiteralNumber>) -> Option<i8> {
    if l.len() != r.len() {
        None
    } else {
        fp_cmp(pos_length(l), pos_length(r))
    }
}

impl LiteralPosition {
    /// The structural type of the position.
    pub fn get_type(&self) -> (r: LiteralTypes)
        ensures
            type_view(r) == pos_type(self.0@),
    {
        let v = &self.0;
        let mut t: Vec<LiteralTypes> = Vec::new();
        let mut i: usize = 0;
        while i < v.len()
            invariant
                0 <= i <= v@.len(),
                t@.len() == i,
                forall|j: int| 0 <= j < i ==> type_view(#[trigger] t@[j]) == num_type(v@[j]),
            decreases v@.len() - i,
        {
            t.push(
                match v[i] {
                    LiteralNumber::Int(_) => LiteralTypes::Int,
                    LiteralNumber::Float(_) => LiteralTypes::Float,
                },
            );
            i = i + 1;
        }
        proof {
            crate::types::lemma_types_view(t@);
            assert(crate::types::types_view(t@) =~= pos_type(v@)->Vector_0);
        }
        LiteralTypes::Vector(t)
    }

    /// The squared geometric length of the position.
    pub fn length(&self) -> (r: Fp)
        ensures
            r.0 == pos_length(self.0@),
    {
        let v = &self.0;
        let mut a = Fp(FP_ZERO);
        let mut i: usize = 0;
        while i < v.len()
            invariant
                0 <= i <= v@.len(),
                a.0 == pos_length(v@.take(i as int)),
            decreases v@.len() - i,
        {
            let x = v[i].to_fp();
            a = fp::add(a, fp::mul(x, x));
            proof {
                assert(v@.take(i + 1).drop_last() =~= v@.take(i as int));
                assert(v@.take(i + 1).last() == v@[i as int]);
            }
            i = i + 1;
        }
        proof {
            assert(v@.take(v@.len() as int) =~= v@);
        }
        a
    }

    /// The dimension of the position.
    pub fn dimensions(&self) -> (r: usize)
        ensures
            r == self.0@.len(),
    {
        self.0.len()
    }

    /// Whether this position equals the other, element-wise, under the
    /// one-directional coercion rule.
    pub fn equals(&self, other: &LiteralPosition) -> (r: bool)
        ensures
            r == pos_eq(self.0@, other.0@),
    {
        if self.0.len() != other.0.len() {
            return false;
        }
        let mut i: usize = 0;
        while i < self.0.len()
            invariant
                0 <= i <= self.0@.len(),
                self.0@.len() == other.0@.len(),
                forall|j: int| 0 <= j < i ==> num_eq(#[trigger] self.0@[j], other.0@[j]),
            decreases self.0@.len() - i,
        {
            if !self.0[i].coerced_eq(&other.0[i]) {
                proof {
                    assert(!num_eq(self.0@[i as int], other.0@[i as int]));
                    assert(!pos_eq(self.0@, other.0@));
                }
                return false;
            }
            i = i + 1;
        }
        true
    }

    /// The geometric comparison of this position against the other:
    /// `None` for different dimensions, otherwise the IEEE comparison
    /// of the squared lengths.
    pub fn compare(&self, other: &LiteralPosition) -> (r: Option<i8>)
        ensures
            r == pos_cmp(self.0@, other.0@),
    {
        if self.0.len() != other.0.len() {
            None
        } else {
            fp::cmp(self.length(), other.length())
        }
    }

    /// An owned copy of the position.
    pub fn duplicate(&self) -> (r: LiteralPosition)
        ensures
            r.0@ == self.0@,
    {
        let v = &self.0;
        let mut c: Vec<LiteralNumber> = Vec::new();
        let mut i: usize = 0;
        while i < v.len()
            invariant
                0 <= i <= v@.len(),
                c@ =~= v@.take(i as int),
            decreases v@.len() - i,
        {
            c.push(v[i]);
            proof {
                assert(c@ =~= v@.take(i + 1));
            }
            i = i + 1;
        }
        proof {
            assert(v@.take(v@.len() as int) =~= v@);
        }
        LiteralPosition(c)
    }
}

/// A step of a selector path: a property name (possibly empty) and an
/// optional array index.
#[derive(Debug)]
pub struct Field(pub String, pub Option<usize>);

/// An ordered path of fields used to extract a value from a spatial
/// object's property bag or from the reserved identifiers.
#[derive(Debug)]
pub struct LiteralSelector(pub Vec<Field>);

impl LiteralSelector {
    /// The structural type a selector is assumed to produce.  The data
    /// model gives no way to look a property's type up, so everything is
    /// assumed to be a number; a stated simplification of the validator.
    pub fn get_type(&self) -> (r: LiteralTypes)
        ensures
            type_view(r) == TypeV::Int,
    {
        LiteralTypes::Int
    }
}

/// A position expression, resolved per spatial object.
#[derive(Debug)]
pub enum Position {
    /// A three-way string comparison against a literal, encoded as the
    /// pseudo-position `[-1]`, `[0]` or `[1]`.
    StrCmp(LiteralSelector, String),
    /// The same comparison, ignoring ASCII case.
    StrCmpICase(LiteralSelector, String),
    /// A selector resolved against the object.
    Selector(LiteralSelector),
    /// A constant position.
    Literal(LiteralPosition),
}

/// A boolean expression tree over position comparisons.
#[derive(Debug)]
pub enum Predicate {
    Less(Position, LiteralPosition),
    Greater(Position, LiteralPosition),
    Equal(Position, LiteralPosition),
    Not(Box<Predicate>),
    And(Box<Predicate>, Box<Predicate>),
    Or(Box<Predicate>, Box<Predicate>),
}

/// A geometric region tied to a named coordinate space.
#[derive(Debug)]
pub enum Shape {
    Point(String, LiteralPosition),
    /// Axis-aligned, defined by exactly two corner positions (low,
    /// high); any other arity is rejected as unsupported.
    HyperRectangle(String, Vec<LiteralPosition>),
    HyperSphere(String, LiteralPosition, LiteralNumber),
    /// A direct identifier lookup, bypassing geometry.
    Label(String, String),
    /// Unsupported placeholder; always an error downstream.
    Nifti(String),
}

/// The set-expression tree.
#[derive(Debug)]
pub enum Bag {
    /// Implicit operator, inserted by the surrounding query builder to
    /// clip results to a caller viewport; never written by users.
    ViewPort(Box<Bag>),
    Distinct(Box<Bag>),
    Filter(Option<Predicate>, Option<Box<Bag>>),
    Complement(Box<Bag>),
    Intersection(Box<Bag>, Box<Bag>),
    Union(Box<Bag>, Box<Bag>),
    Bag(Vec<Bag>),
    Inside(Shape),
    Outside(Shape),
}

/// What a query evaluates to: a rendering of a bag's results.
#[derive(Debug)]
pub enum Projection {
    /// Unsupported placeholder; always an error downstream.
    Nifti(String, LiteralSelector, Bag),
    JSON(String, JsonValue, Bag),
}

/// The JSON value language of the `json` projection.  It is part of the
/// grammar but not yet wired into execution.
#[derive(Debug)]
pub enum JsonValue {
    String(String),
    JsonNumber(LiteralNumber),
    Bool(bool),
    Null,
    Object(Vec<(String, JsonValue)>),
    Array(Vec<JsonValue>),
    Selector(LiteralSelector),
    Aggregation(Aggregation),
}

/// An aggregation over a selected value.
#[derive(Debug)]
pub enum Aggregation {
    /// The flag records the `distinct` keyword.
    Count(bool, LiteralSelector),
    Sum(LiteralSelector),
    Min(LiteralSelector),
    Max(LiteralSelector),
}

/// The space a shape is tied to.
pub open spec fn shape_space(s: Shape) -> Seq<char> {
    match s {
        Shape::Point(space, _) => space@,
        Shape::HyperRectangle(space, _) => space@,
        Shape::HyperSphere(space, _, _) => space@,
        Shape::Label(space, _) => space@,
        Shape::Nifti(space) => space@,
    }
}

/// The space a bag's result is expressed in.  Intersections and unions
/// report their left operand's space (validation checks the two agree);
/// a `Bag` list always reports the universe space, as its elements may
/// span several spaces; a filter with no inner bag scans the universe.
pub open spec fn bag_space(b: Bag) -> Seq<char>
    decreases b,
{
    match b {
        Bag::ViewPort(bag) => bag_space(*bag),
        Bag::Distinct(bag) => bag_space(*bag),
        Bag::Filter(_, Some(bag)) => bag_space(*bag),
        Bag::Filter(_, None) => "Universe"@,
        Bag::Complement(bag) => bag_space(*bag),
        Bag::Intersection(lh, _) => bag_space(*lh),
        Bag::Union(lh, _) => bag_space(*lh),
        Bag::Bag(_) => "Universe"@,
        Bag::Inside(shape) => shape_space(shape),
        Bag::Outside(shape) => shape_space(shape),
    }
}

/// The space a projection's result is expressed in.
pub open spec fn projection_space(p: Projection) -> Seq<char> {
    match p {
        Projection::Nifti(space, _, _) => space@,
        Projection::JSON(space, _, _) => space@,
    }
}

impl Shape {
    /// The name of the space the shape is tied to.
    pub fn space(&self) -> (r: &str)
        ensures
            r@ == shape_space(*self),
    {
        match self {
            Shape::Point(space, _) => space.as_str(),
            Shape::HyperRectangle(space, _) => space.as_str(),
            Shape::HyperSphere(space, _, _) => space.as_str(),
            Shape::Label(space, _) => space.as_str(),
            Shape::Nifti(space) => space.as_str(),
        }
    }
}

impl Bag {
    /// The name of the space the bag's result is expressed in (see
    /// `bag_space`).
    pub fn space(&self) -> (r: &str)
        ensures
            r@ == bag_space(*self),
        decreases *self,
    {
        match self {
            Bag::ViewPort(bag) => bag.space(),
            Bag::Distinct(bag) => bag.space(),
            Bag::Filter(_, Some(bag)) => bag.space(),
            Bag::Filter(_, None) => "Universe",
            Bag::Complement(bag) => bag.space(),
            Bag::Intersection(lh, _) => lh.space(),
            Bag::Union(lh, _) => lh.space(),
            Bag::Bag(_) => "Universe",
            Bag::Inside(shape) => shape.space(),
            Bag::Outside(shape) => shape.space(),
        }
    }
}

impl Projection {
    /// The name of the space the projection's result is expressed in.
    pub fn space(&self) -> (r: &str)
        ensures
            r@ == projection_space(*self),
    {
        match self {
            Projection::Nifti(space, _, _) => space.as_str(),
            Projection::JSON(space, _, _) => space.as_str(),
        }
    }
}

/// The length of one axis of a rectangle: the absolute difference of
/// the two bounds, computed by comparing the bounds first.
pub open spec fn axis_length(l: u64, h: u64) -> u64 {
    if fp_gt(h, l) {
        fp_sub(h, l)
    } else {
        fp_sub(l, h)
    }
}

/// The volume of the first `n` axes of an axis-aligned rectangle:
/// the running binary64 product of the axis lengths, starting at 1.0.
pub open spec fn rect_volume_upto(low: Seq<LiteralNumber>, high: Seq<LiteralNumber>, n: int) -> u64
    decreases n,
{
    if n <= 0 {
        FP_ONE
    } else {
        fp_mul(
            rect_volume_upto(low, high, n - 1),
            axis_length(num_bits(low[n - 1]), num_bits(high[n - 1])),
        )
    }
}

/// The n-ball coefficient accumulation: starting from the parity-based
/// seed, repeatedly multiply by 2.0 times the circle constant and
/// divide by the loop counter, which climbs by twos until it reaches
/// the dimension.
pub open spec fn sphere_coeff(k: nat, i: nat, a: u64) -> u64
    decreases
            (if i <= k {
                (k - i) as int
            } else {
                0
            }),
{
    if i < k {
        sphere_coeff(k, (i + 2) as nat, fp_div(fp_mul(a, fp_mul(FP_TWO, FP_PI)), fp_of_uint((i + 2) as u64)))
    } else {
        a
    }
}

/// The exponent the radius is raised to: the final value of the same
/// climbing counter.
pub open spec fn sphere_exp(k: nat, i: nat) -> nat
    decreases
            (if i <= k {
                (k - i) as int
            } else {
                0
            }),
{
    if i < k {
        sphere_exp(k, (i + 2) as nat)
    } else {
        i
    }
}

/// The binary64 power by repeated multiplication, left to right.
pub open spec fn fp_powi(base: u64, n: nat) -> u64
    decreases n,
{
    if n == 0 {
        FP_ONE
    } else {
        fp_mul(fp_powi(base, (n - 1) as nat), base)
    }
}

/// The volume of a shape.  A point, or a label lookup without geometric
/// extent, counts as the smallest non-zero volume, so that the cost
/// heuristics never see an exactly-zero estimate.  A rectangle is the
/// product of its axis lengths; a sphere follows the n-ball recurrence.
/// The unsupported `Nifti` placeholder has no volume.
pub open spec fn shape_volume(s: Shape) -> u64 {
    match s {
        Shape::Point(_, _) => FP_EPSILON,
        Shape::Label(_, _) => FP_EPSILON,
        Shape::HyperRectangle(_, pos) => rect_volume_upto(
            pos[0].0@,
            pos[pos@.len() - 1].0@,
            pos[0].0@.len() as int,
        ),
        Shape::HyperSphere(_, pos, radius) => {
            let k = pos.0@.len();
            let seed: u64 = if k % 2 == 0 {
                FP_PI
            } else {
                FP_TWO
            };
            let start: nat = if k % 2 == 0 {
                2
            } else {
                1
            };
            fp_mul(
                sphere_coeff(k, start, seed),
                fp_powi(num_bits(radius), sphere_exp(k, start)),
            )
        },
        Shape::Nifti(_) => FP_ZERO,
    }
}

/// Whether a shape's volume is defined: the unsupported `Nifti`
/// placeholder has none, and a rectangle must have exactly two corners
/// whose dimensions agree, as the validator demands.  The machine bound
/// on the sphere dimension keeps the climbing counter within `usize`.
pub open spec fn volume_wf(s: Shape) -> bool {
    &&& !(s is Nifti)
    &&& s matches Shape::HyperRectangle(_, pos) ==> {
        &&& pos.len() == 2
        &&& pos[1].0@.len() == pos[0].0@.len()
    }
    &&& s matches Shape::HyperSphere(_, p, _) ==> p.0@.len() < usize::MAX - 2
}

impl Shape {
    /// The volume of the shape (see `shape_volume`).
    pub fn volume(&self) -> (r: Fp)
        requires
            volume_wf(*self),
        ensures
            r.0 == shape_volume(*self),
    {
        match self {
            Shape::Point(_, _) => Fp(FP_EPSILON),
            Shape::Label(_, _) => Fp(FP_EPSILON),
            Shape::HyperRectangle(_, pos) => {
                let dims = pos[0].0.len();
                let mut volume = Fp(FP_ONE);
                let mut i: usize = 0;
                while i < dims
                    invariant
                        volume_wf(*self),
                        *self matches Shape::HyperRectangle(_, p) && p == pos,
                        pos@.len() == 2,
                        dims == pos@[0].0@.len(),
                        pos@[1].0@.len() == dims,
                        0 <= i <= dims,
                        volume.0 == rect_volume_upto(pos@[0].0@, pos@[1].0@, i as int),
                    decreases dims - i,
                {
                    let l = pos[0].0[i].to_fp();
                    let h = pos[1].0[i].to_fp();
                    let length = if fp::gt(h, l) {
                        fp::sub(h, l)
                    } else {
                        fp::sub(l, h)
                    };
                    volume = fp::mul(volume, length);
                    i = i + 1;
                }
                volume
            },
            Shape::HyperSphere(_, pos, radius) => {
                let k = pos.0.len();
                let mut a = Fp(FP_TWO);
                let mut i: usize = 1;
                if k % 2 == 0 {
                    a = Fp(FP_PI);
                    i = 2;
                }
                let factor = fp::mul(Fp(FP_TWO), Fp(FP_PI));
                let ghost start: nat = i as nat;
                let ghost seed: u64 = a.0;
                while i < k
                    invariant
                        k < usize::MAX - 2,
                        1 <= i <= k + 2,
                        factor.0 == fp_mul(FP_TWO, FP_PI),
                        sphere_coeff(k as nat, i as nat, a.0) == sphere_coeff(
                            k as nat,
                            start,
                            seed,
                        ),
                        sphere_exp(k as nat, i as nat) == sphere_exp(k as nat, start),
                    decreases
                            (if i <= k {
                                (k - i) as int
                            } else {
                                0
                            }),
                {
                    i = i + 2;
                    a = fp::mul(a, factor);
                    a = fp::div(a, fp::of_uint(i as u64));
                }
                let r = radius.to_fp();
                let mut p = Fp(FP_ONE);
                let mut j: usize = 0;
                while j < i
                    invariant
                        0 <= j <= i,
                        r.0 == num_bits(*radius),
                        p.0 == fp_powi(num_bits(*radius), j as nat),
                    decreases i - j,
                {
                    p = fp::mul(p, r);
                    j = j + 1;
                }
                proof {
                    assert(sphere_exp(k as nat, i as nat) == i as nat);
                }
                fp::mul(a, p)
            },
            Shape::Nifti(_) => Fp(FP_ZERO),
        }
    }
}

/// The placeholder type the validator assigns where it has no real type
/// information: a vector of three binary64 coordinates.  A stated
/// simplification, not to be repaired silently.
pub fn get_type() -> (r: LiteralTypes)
    ensures
        type_view(r) == TypeV::Vector(seq![TypeV::Float, TypeV::Float, TypeV::Float]),
{
    let r = LiteralTypes::Vector(
        vec![LiteralTypes::Float, LiteralTypes::Float, LiteralTypes::Float],
    );
    proof {
        crate::types::lemma_types_view(
            seq![LiteralTypes::Float, LiteralTypes::Float, LiteralTypes::Float],
        );
        assert(type_view(r)->Vector_0 =~= seq![TypeV::Float, TypeV::Float, TypeV::Float]);
    }
    r
}

} // verus!
