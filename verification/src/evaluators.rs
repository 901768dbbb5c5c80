//! The predicate evaluator: a pure boolean walk over one spatial
//! object, with no side effects and no short-circuiting.

use vstd::prelude::*;

use crate::store::{ObjV, Properties, lit_of_bits};
use crate::strings::{cmp_from, str_cmp3};
use crate::symbols::{LiteralNumber, LiteralPosition, LiteralSelector, Position, Predicate};
use crate::symbols::{pos_cmp, pos_eq};
use crate::fp::Fp;

verus! {

/// Whether a selector ends in one of the reserved identifiers a string
/// lookup can resolve: the object's identifier, its kind, or the space
/// it is reported in.  Any other selector has no string value yet.
pub open spec fn selector_reserved(sel: LiteralSelector) -> bool {
    &&& sel.0@.len() > 0
    &&& {
        let name = sel.0@.last().0@;
        name == "id"@ || name == "type"@ || name == "reference_space"@
    }
}

/// Whether every string comparison of a position expression rests on a
/// reserved selector.
pub open spec fn pos_expr_wf(p: Position) -> bool {
    match p {
        Position::StrCmp(sel, _) => selector_reserved(sel),
        Position::StrCmpICase(sel, _) => selector_reserved(sel),
        Position::Selector(_) => true,
        Position::Literal(_) => true,
    }
}

/// Whether every string comparison of a predicate rests on a reserved
/// selector.
pub open spec fn pred_wf(p: Predicate) -> bool
    decreases p,
{
    match p {
        Predicate::Less(pe, _) => pos_expr_wf(pe),
        Predicate::Greater(pe, _) => pos_expr_wf(pe),
        Predicate::Equal(pe, _) => pos_expr_wf(pe),
        Predicate::Not(inner) => pred_wf(*inner),
        Predicate::And(lh, rh) => pred_wf(*lh) && pred_wf(*rh),
        Predicate::Or(lh, rh) => pred_wf(*lh) && pred_wf(*rh),
    }
}

/// The string a reserved selector resolves to against an object in a
/// space.
pub open spec fn spec_selector_str(sel: LiteralSelector, space: Seq<char>, o: ObjV) -> Seq<char> {
    let name = sel.0@.last().0@;
    if name == "id"@ {
        o.id
    } else if name == "type"@ {
        o.kind
    } else {
        space
    }
}

/// The position a position expression resolves to against an object: a
/// constant, the object's own position, or a string comparison encoded
/// as the pseudo-position `[-1]`, `[0]` or `[1]`.
pub open spec fn spec_value(p: Position, space: Seq<char>, o: ObjV) -> Seq<LiteralNumber> {
    match p {
        Position::Literal(lp) => lp.0@,
        Position::Selector(_) => lit_of_bits(o.position),
        Position::StrCmp(sel, lit) => seq![
            LiteralNumber::Int(cmp_from(spec_selector_str(sel, space, o), lit@, 0, false) as i64),
        ],
        Position::StrCmpICase(sel, lit) => seq![
            LiteralNumber::Int(cmp_from(spec_selector_str(sel, space, o), lit@, 0, true) as i64),
        ],
    }
}

/// What a predicate says of an object.  The leaf comparisons `Less` and
/// `Greater` order positions by squared length; `Equal` compares them
/// element-wise under the one-directional coercion rule.
pub open spec fn spec_eval(p: Predicate, space: Seq<char>, o: ObjV) -> bool
    decreases p,
{
    match p {
        Predicate::Less(pe, lit) => pos_cmp(spec_value(pe, space, o), lit.0@) == Some(-1i8),
        Predicate::Greater(pe, lit) => pos_cmp(spec_value(pe, space, o), lit.0@) == Some(1i8),
        Predicate::Equal(pe, lit) => pos_eq(spec_value(pe, space, o), lit.0@),
        Predicate::Not(inner) => !spec_eval(*inner, space, o),
        Predicate::And(lh, rh) => spec_eval(*lh, space, o) && spec_eval(*rh, space, o),
        Predicate::Or(lh, rh) => spec_eval(*lh, space, o) || spec_eval(*rh, space, o),
    }
}

/// The view of the object tuple the evaluator walks.
pub open spec fn object_view(object: (&String, &Vec<Fp>, &Properties)) -> ObjV {
    ObjV { position: object.1@, id: object.2.id@, kind: object.2.kind@ }
}

impl LiteralSelector {
    /// The object's spatial position; the selector's path is not looked
    /// up in the property bag yet, a stated simplification.
    pub fn position(&self, object: (&String, &Vec<Fp>, &Properties)) -> (r: LiteralPosition)
        ensures
            r.0@ == lit_of_bits(object.1@),
    {
        crate::store::position_of_bits(object.1)
    }

    /// The string a reserved selector resolves to (see
    /// `spec_selector_str`).
    pub fn str<'e>(&self, object: (&'e String, &'e Vec<Fp>, &'e Properties)) -> (r: &'e str)
        requires
            selector_reserved(*self),
        ensures
            r@ == spec_selector_str(*self, object.0@, object_view(object)),
    {
        let name = &self.0[self.0.len() - 1].0;
        if crate::strings::str_eq(name.as_str(), "id") {
            object.2.id.as_str()
        } else if crate::strings::str_eq(name.as_str(), "type") {
            object.2.kind.as_str()
        } else {
            object.0.as_str()
        }
    }
}

impl Position {
    /// Resolve the position expression against an object (see
    /// `spec_value`).
    pub fn value(&self, object: (&String, &Vec<Fp>, &Properties)) -> (r: LiteralPosition)
        requires
            pos_expr_wf(*self),
        ensures
            r.0@ == spec_value(*self, object.0@, object_view(object)),
    {
        match self {
            Position::Literal(literal) => literal.duplicate(),
            Position::Selector(selector) => selector.position(object),
            Position::StrCmp(selector, literal) => {
                let x = str_cmp3(selector.str(object), literal.as_str(), false);
                let mut v: Vec<LiteralNumber> = Vec::new();
                v.push(LiteralNumber::Int(x as i64));
                proof {
                    assert(v@ =~= spec_value(*self, object.0@, object_view(object)));
                }
                LiteralPosition(v)
            },
            Position::StrCmpICase(selector, literal) => {
                let x = str_cmp3(selector.str(object), literal.as_str(), true);
                let mut v: Vec<LiteralNumber> = Vec::new();
                v.push(LiteralNumber::Int(x as i64));
                proof {
                    assert(v@ =~= spec_value(*self, object.0@, object_view(object)));
                }
                LiteralPosition(v)
            },
        }
    }
}

impl Predicate {
    /// Evaluate the predicate against an object (see `spec_eval`).
    /// Both operands of a conjunction or disjunction are evaluated;
    /// resolution has no side effects, so nothing is saved by stopping
    /// early.
    pub fn eval(&self, object: (&String, &Vec<Fp>, &Properties)) -> (r: bool)
        requires
            pred_wf(*self),
        ensures
            r == spec_eval(*self, object.0@, object_view(object)),
        decreases *self,
    {
        match self {
            Predicate::Not(predicate) => !predicate.eval(object),
            Predicate::And(lh, rh) => {
                let l = lh.eval(object);
                let r = rh.eval(object);
                l && r
            },
            Predicate::Or(lh, rh) => {
                let l = lh.eval(object);
                let r = rh.eval(object);
                l || r
            },
            Predicate::Less(selector, literal) => {
                let v = selector.value(object);
                match v.compare(literal) {
                    Some(c) => c == -1,
                    None => false,
                }
            },
            Predicate::Greater(selector, literal) => {
                let v = selector.value(object);
                match v.compare(literal) {
                    Some(c) => c == 1,
                    None => false,
                }
            },
            Predicate::Equal(selector, literal) => {
                let v = selector.value(object);
                v.equals(literal)
            },
        }
    }
}

} // verus!
