//! The structural value types the validator assigns to expressions.

use vstd::prelude::*;

verus! {

/// A structural value type: scalars, heterogeneous bags and vectors,
/// and fixed-length homogeneous arrays.
#[derive(Debug)]
pub enum LiteralTypes {
    String,
    Int,
    Float,
    /// List of types (heterogeneous).
    Bag(Vec<LiteralTypes>),
    /// List of coordinate types (heterogeneous).
    Vector(Vec<LiteralTypes>),
    /// Length, homogeneous element type.
    Array(usize, Box<LiteralTypes>),
}

/// The mathematical shape of a `LiteralTypes` value.
#[verifier::ext_equal]
pub ghost enum TypeV {
    String,
    Int,
    Float,
    Bag(Seq<TypeV>),
    Vector(Seq<TypeV>),
    Array(nat, Box<TypeV>),
}

/// The view of a type as its mathematical shape.
pub open spec fn type_view(t: LiteralTypes) -> TypeV
    decreases t,
{
    match t {
        LiteralTypes::String => TypeV::String,
        LiteralTypes::Int => TypeV::Int,
        LiteralTypes::Float => TypeV::Float,
        LiteralTypes::Bag(v) => TypeV::Bag(types_view(v@)),
        LiteralTypes::Vector(v) => TypeV::Vector(types_view(v@)),
        LiteralTypes::Array(n, t) => TypeV::Array(n as nat, Box::new(type_view(*t))),
    }
}

/// The views of a sequence of types, element by element.
pub open spec fn types_view(v: Seq<LiteralTypes>) -> Seq<TypeV>
    decreases v,
{
    Seq::new(
        v.len(),
        |i: int|
            if 0 <= i < v.len() {
                type_view(v[i])
            } else {
                TypeV::Int
            },
    )
}

/// `types_view` keeps the length and views each element in place.
pub proof fn lemma_types_view(v: Seq<LiteralTypes>)
    ensures
        types_view(v).len() == v.len(),
        forall|i: int|
            #![trigger types_view(v)[i]]
            #![trigger type_view(v[i])]
            0 <= i < v.len() ==> types_view(v)[i] == type_view(v[i]),
{
}

/// The one-directional coercion rule: the left (expected) type accepts
/// the right (found) type.  `Float` absorbs `Int`; the converse does not
/// hold.  Two `Bag` types always accept each other, whatever their
/// element types; vectors must agree in length and element-wise; arrays
/// in length and element type.
pub open spec fn accepts(l: TypeV, r: TypeV) -> bool
    decreases l,
{
    match l {
        TypeV::String => r is String,
        TypeV::Int => r is Int,
        TypeV::Float => r is Float || r is Int,
        TypeV::Bag(_) => r is Bag,
        TypeV::Vector(lv) => match r {
            TypeV::Vector(rv) => lv.len() == rv.len() && forall|i: int|
                0 <= i < lv.len() ==> accepts(#[trigger] lv[i], rv[i]),
            _ => false,
        },
        TypeV::Array(ln, lt) => match r {
            TypeV::Array(rn, rt) => ln == rn && accepts(*lt, *rt),
            _ => false,
        },
    }
}

impl LiteralTypes {
    /// Whether this (expected) type accepts the other (found) type under
    /// the one-directional coercion rule.
    pub fn accepts_type(&self, other: &LiteralTypes) -> (r: bool)
        ensures
            r == accepts(type_view(*self), type_view(*other)),
        decreases *self,
    {
        match self {
            LiteralTypes::String => matches!(other, LiteralTypes::String),
            LiteralTypes::Int => matches!(other, LiteralTypes::Int),
            LiteralTypes::Float => matches!(other, LiteralTypes::Float | LiteralTypes::Int),
            LiteralTypes::Bag(_) => matches!(other, LiteralTypes::Bag(_)),
            LiteralTypes::Vector(v) => match other {
                LiteralTypes::Vector(ov) => {
                    proof {
                        lemma_types_view(v@);
                        lemma_types_view(ov@);
                    }
                    if v.len() != ov.len() {
                        false
                    } else {
                        matches_all(v, ov)
                    }
                },
                _ => false,
            },
            LiteralTypes::Array(n, t) => match other {
                LiteralTypes::Array(on, ot) => *n == *on && t.accepts_type(ot),
                _ => false,
            },
        }
    }
}

/// Whether each expected element type accepts the found element type at
/// the same index.
fn matches_all(v: &Vec<LiteralTypes>, ov: &Vec<LiteralTypes>) -> (r: bool)
    requires
        v@.len() == ov@.len(),
    ensures
        r == forall|j: int|
            0 <= j < v@.len() ==> accepts(#[trigger] type_view(v@[j]), type_view(ov@[j])),
    decreases *v,
{
    let mut i: usize = 0;
    let mut ok = true;
    while i < v.len()
        invariant
            0 <= i <= v@.len(),
            v@.len() == ov@.len(),
            ok == forall|j: int|
                0 <= j < i ==> accepts(#[trigger] type_view(v@[j]), type_view(ov@[j])),
        decreases v@.len() - i,
    {
        proof {
            assert(decreases_to!(*v => v@));
            assert(decreases_to!(v@ => v@[i as int]));
        }
        if !v[i].accepts_type(&ov[i]) {
            ok = false;
        }
        i = i + 1;
    }
    ok
}

} // verus!
