//! The query language parser: a recursive-descent reading of the
//! grammar the engine answers.
//!
//! The surface: shapes `point{pos[, space]}`,
//! `hyperrectangle{pos, pos[, ...][, space]}` (an even number of at
//! least two corners), `hypersphere{pos, radius[, space]}` and
//! `nifti{uri("..."), space}`; bag operators `inside`, `outside`,
//! `distinct`, `complement`, strictly binary `intersection` and
//! `union`, `filter(predicate[, bag])` and `bag{...}`; predicates
//! `<`, `>`, `=`, `!`, `&`, `|` over positions, selector paths and
//! string comparisons; projections `json(value, bag)` and
//! `nifti([selector,] bag)`; and a JSON value grammar with strict
//! numeric literals (no leading `+`, no leading zeros), standard string
//! escapes and the `count`/`sum`/`min`/`max` aggregations.

use vstd::prelude::*;

use crate::fp;
use crate::strings::{char_of_u32, chars_of, string_of_chars};
use crate::symbols::{
    Aggregation, Bag, Field, JsonValue, LiteralNumber, LiteralPosition, LiteralSelector, Position,
    Predicate, Projection, Shape,
};
use vstd::string::StrSliceExecFns;
use vstd::string::StringExecFns;

verus! {

/// A syntax error: the position (in characters) the parse failed at.
#[derive(Debug)]
pub struct ParseError {
    pub at: usize,
}

/// Whether every rectangle of a shape has the arity the grammar
/// guarantees: an even number of at least two corner positions.
pub open spec fn grammar_wf_shape(sh: Shape) -> bool {
    sh matches Shape::HyperRectangle(_, corners) ==> corners@.len() >= 2 && corners@.len() % 2
        == 0
}

/// Whether every rectangle of a bag tree has the arity the grammar
/// guarantees.
pub open spec fn grammar_wf_bag(b: Bag) -> bool
    decreases b,
{
    match b {
        Bag::ViewPort(bag) => grammar_wf_bag(*bag),
        Bag::Distinct(bag) => grammar_wf_bag(*bag),
        Bag::Filter(_, Some(bag)) => grammar_wf_bag(*bag),
        Bag::Filter(_, None) => true,
        Bag::Complement(bag) => grammar_wf_bag(*bag),
        Bag::Intersection(lh, rh) => grammar_wf_bag(*lh) && grammar_wf_bag(*rh),
        Bag::Union(lh, rh) => grammar_wf_bag(*lh) && grammar_wf_bag(*rh),
        Bag::Bag(bags) => forall|i: int|
            0 <= i < bags@.len() ==> grammar_wf_bag(#[trigger] bags@[i]),
        Bag::Inside(shape) => grammar_wf_shape(shape),
        Bag::Outside(shape) => grammar_wf_shape(shape),
    }
}

/// Skip blanks, tabs and line breaks.
#[verifier::loop_isolation(false)]
fn skip_ws(s: &Vec<char>, i: usize) -> (r: usize)
    requires
        i <= s@.len(),
    ensures
        i <= r <= s@.len(),
{
    let mut j = i;
    while j < s.len() && (s[j] == ' ' || s[j] == '\t' || s[j] == '\n' || s[j] == '\r')
        invariant
            i <= j <= s@.len(),
        decreases s@.len() - j,
    {
        j = j + 1;
    }
    j
}

/// Consume one expected character.
#[verifier::loop_isolation(false)]
fn eat_char(s: &Vec<char>, i: usize, c: char) -> (r: Option<usize>)
    requires
        i <= s@.len(),
    ensures
        r matches Some(j) ==> i < j <= s@.len() && j == i + 1,
        r is Some <==> (i < s@.len() && s@[i as int] == c),
{
    if i < s.len() && s[i] == c {
        Some(i + 1)
    } else {
        None
    }
}

/// Consume an expected keyword; an empty keyword never matches.
#[verifier::loop_isolation(false)]
fn eat_kw(s: &Vec<char>, i: usize, kw: &str) -> (r: Option<usize>)
    requires
        i <= s@.len(),
    ensures
        r matches Some(j) ==> i < j <= s@.len(),
{
    let n = kw.unicode_len();
    if n == 0 {
        return None;
    }
    let total = s.len();
    if total - i < n {
        return None;
    }
    let mut k: usize = 0;
    while k < n
        invariant
            0 <= k <= n,
            n == kw@.len(),
            total == s@.len(),
            i + n <= total,
        decreases n - k,
    {
        if s[i + k] != kw.get_char(k) {
            return None;
        }
        k = k + 1;
    }
    Some(i + n)
}

/// A copy of the characters between two positions.
#[verifier::loop_isolation(false)]
fn slice_chars(s: &Vec<char>, a: usize, b: usize) -> (r: Vec<char>)
    requires
        a <= b <= s@.len(),
    ensures
        r@ == s@.subrange(a as int, b as int),
{
    let mut v: Vec<char> = Vec::new();
    let mut k = a;
    while k < b
        invariant
            a <= k <= b <= s@.len(),
            v@ =~= s@.subrange(a as int, k as int),
        decreases b - k,
    {
        v.push(s[k]);
        proof {
            assert(v@ =~= s@.subrange(a as int, k + 1));
        }
        k = k + 1;
    }
    v
}

/// Whether a character is a decimal digit.
#[verifier::loop_isolation(false)]
fn is_digit(c: char) -> (r: bool)
    ensures
        r == ('0' <= c <= '9'),
{
    '0' <= c && c <= '9'
}

/// Scan the digits of an unsigned integer part with no leading zero:
/// `0` alone, or a nonzero digit followed by any digits.
#[verifier::loop_isolation(false)]
fn scan_int_part(s: &Vec<char>, i: usize) -> (r: Result<usize, ParseError>)
    requires
        i <= s@.len(),
    ensures
        r matches Ok(j) ==> i < j <= s@.len(),
{
    if i >= s.len() || !is_digit(s[i]) {
        return Err(ParseError { at: i });
    }
    if s[i] == '0' {
        // A second digit would make a leading zero.
        if i + 1 < s.len() && is_digit(s[i + 1]) {
            return Err(ParseError { at: i + 1 });
        }
        return Ok(i + 1);
    }
    let mut j = i + 1;
    while j < s.len() && is_digit(s[j])
        invariant
            i < j <= s@.len(),
        decreases s@.len() - j,
    {
        j = j + 1;
    }
    Ok(j)
}

/// Parse an unsigned numeric literal starting at `i`; `sign_start`
/// marks where its optional sign began, so that a binary64 literal is
/// converted together with it.  Integer literals without fraction or
/// exponent must fit the signed 64-bit range.
#[verifier::loop_isolation(false)]
fn parse_unsigned_number(s: &Vec<char>, i: usize, sign_start: usize, negative: bool) -> (r: Result<
    (LiteralNumber, usize),
    ParseError,
>)
    requires
        sign_start <= i <= s@.len(),
    ensures
        r matches Ok(p) ==> i < p.1 <= s@.len(),
{
    let int_end = match scan_int_part(s, i) {
        Err(e) => {
            return Err(e);
        },
        Ok(j) => j,
    };
    let mut j = int_end;
    let mut is_float = false;
    // Fraction: a dot must carry at least one digit.
    if j < s.len() && s[j] == '.' {
        if j + 1 >= s.len() || !is_digit(s[j + 1]) {
            return Err(ParseError { at: j + 1 });
        }
        is_float = true;
        j = j + 2;
        while j < s.len() && is_digit(s[j])
            invariant
                i < j <= s@.len(),
            decreases s@.len() - j,
        {
            j = j + 1;
        }
    }
    // Exponent: an optional sign, then digits with no leading zero.
    if j < s.len() && (s[j] == 'e' || s[j] == 'E') {
        let mut k = j + 1;
        if k < s.len() && (s[k] == '+' || s[k] == '-') {
            k = k + 1;
        }
        match scan_int_part(s, k) {
            Err(e) => {
                return Err(e);
            },
            Ok(m) => {
                is_float = true;
                j = m;
            },
        }
    }
    if is_float {
        let text = slice_chars(s, sign_start, j);
        match fp::of_decimal(&text) {
            Some(f) => Ok((LiteralNumber::Float(f), j)),
            None => Err(ParseError { at: sign_start }),
        }
    } else {
        // Fold the digits into a signed 64-bit value.
        let mut v: i64 = 0;
        let mut k = i;
        while k < int_end
            invariant
                i <= k <= int_end <= s@.len(),
                0 <= v,
            decreases int_end - k,
        {
            let c = s[k];
            if !('0' <= c && c <= '9') {
                return Err(ParseError { at: k });
            }
            let d = (c as u32 - 48) as i64;
            if v > (i64::MAX - d) / 10 {
                return Err(ParseError { at: k });
            }
            v = v * 10 + d;
            k = k + 1;
        }
        Ok((LiteralNumber::Int(if negative { -v } else { v }), j))
    }
}

/// Parse a coordinate: an optionally signed numeric literal.
#[verifier::loop_isolation(false)]
fn parse_coordinate(s: &Vec<char>, i: usize) -> (r: Result<(LiteralNumber, usize), ParseError>)
    requires
        i <= s@.len(),
    ensures
        r matches Ok(p) ==> i < p.1 <= s@.len(),
{
    if i < s.len() && (s[i] == '+' || s[i] == '-') {
        parse_unsigned_number(s, i + 1, i, s[i] == '-')
    } else {
        parse_unsigned_number(s, i, i, false)
    }
}

/// Parse a positive numeric literal: an optional leading `+` only.
#[verifier::loop_isolation(false)]
fn parse_positive_number(s: &Vec<char>, i: usize) -> (r: Result<
    (LiteralNumber, usize),
    ParseError,
>)
    requires
        i <= s@.len(),
    ensures
        r matches Ok(p) ==> i < p.1 <= s@.len(),
{
    if i < s.len() && s[i] == '+' {
        parse_unsigned_number(s, i + 1, i, false)
    } else {
        parse_unsigned_number(s, i, i, false)
    }
}

/// Parse a JSON numeric literal: an optional leading `-` only.
#[verifier::loop_isolation(false)]
fn parse_json_number(s: &Vec<char>, i: usize) -> (r: Result<(LiteralNumber, usize), ParseError>)
    requires
        i <= s@.len(),
    ensures
        r matches Ok(p) ==> i < p.1 <= s@.len(),
{
    if i < s.len() && s[i] == '-' {
        parse_unsigned_number(s, i + 1, i, true)
    } else {
        parse_unsigned_number(s, i, i, false)
    }
}

/// Parse a literal position: one or more comma-separated coordinates in
/// square brackets.
#[verifier::loop_isolation(false)]
fn parse_position(s: &Vec<char>, i: usize) -> (r: Result<(LiteralPosition, usize), ParseError>)
    requires
        i <= s@.len(),
    ensures
        r matches Ok(p) ==> i < p.1 <= s@.len(),
{
    let mut j = match eat_char(s, i, '[') {
        None => {
            return Err(ParseError { at: i });
        },
        Some(j) => j,
    };
    let mut coords: Vec<LiteralNumber> = Vec::new();
    j = skip_ws(s, j);
    let (first, j2) = match parse_coordinate(s, j) {
        Err(e) => {
            return Err(e);
        },
        Ok(p) => p,
    };
    coords.push(first);
    let mut j = skip_ws(s, j2);
    while j < s.len() && s[j] == ','
        invariant
            i < j <= s@.len(),
        decreases s@.len() - j,
    {
        let k = skip_ws(s, j + 1);
        match parse_coordinate(s, k) {
            Err(e) => {
                return Err(e);
            },
            Ok((c, m)) => {
                coords.push(c);
                j = skip_ws(s, m);
            },
        }
    }
    match eat_char(s, j, ']') {
        None => Err(ParseError { at: j }),
        Some(j) => Ok((LiteralPosition(coords), j)),
    }
}

/// Whether a character can open a property name.
#[verifier::loop_isolation(false)]
fn is_name_start(c: char) -> bool {
    ('a' <= c && c <= 'z') || ('A' <= c && c <= 'Z') || c == '_'
}

/// Whether a character can continue a property name.
#[verifier::loop_isolation(false)]
fn is_name_char(c: char) -> bool {
    ('a' <= c && c <= 'z') || ('A' <= c && c <= 'Z') || ('0' <= c && c <= '9') || c == '_'
}

/// Parse an array index: plain digits with no leading zero, fitting
/// `usize`.
#[verifier::loop_isolation(false)]
fn parse_index(s: &Vec<char>, i: usize) -> (r: Result<(usize, usize), ParseError>)
    requires
        i <= s@.len(),
    ensures
        r matches Ok(p) ==> i < p.1 <= s@.len(),
{
    let end = match scan_int_part(s, i) {
        Err(e) => {
            return Err(e);
        },
        Ok(j) => j,
    };
    let mut v: usize = 0;
    let mut k = i;
    while k < end
        invariant
            i <= k <= end <= s@.len(),
        decreases end - k,
    {
        let c = s[k];
        if !('0' <= c && c <= '9') {
            return Err(ParseError { at: k });
        }
        let d = (c as u32 - 48) as usize;
        if v > (usize::MAX - d) / 10 {
            return Err(ParseError { at: k });
        }
        v = v * 10 + d;
        k = k + 1;
    }
    Ok((v, end))
}

/// Parse a selector: one or more fields, each a dot, an optional name
/// and an optional bracketed index.
#[verifier::loop_isolation(false)]
fn parse_selector(s: &Vec<char>, i: usize) -> (r: Result<(LiteralSelector, usize), ParseError>)
    requires
        i <= s@.len(),
    ensures
        r matches Ok(p) ==> i < p.1 <= s@.len(),
{
    if eat_char(s, i, '.').is_none() {
        return Err(ParseError { at: i });
    }
    let mut fields: Vec<Field> = Vec::new();
    let mut j = i;
    while j < s.len() && s[j] == '.'
        invariant
            i <= j <= s@.len(),
            j == i ==> j < s@.len() && s@[j as int] == '.',
        decreases s@.len() - j,
    {
        let mut k = j + 1;
        let name_start = k;
        if k < s.len() && is_name_start(s[k]) {
            k = k + 1;
            while k < s.len() && is_name_char(s[k])
                invariant
                    name_start <= k <= s@.len(),
                decreases s@.len() - k,
            {
                k = k + 1;
            }
        }
        let name_chars = slice_chars(s, name_start, k);
        let name = string_of_chars(&name_chars);
        let mut index: Option<usize> = None;
        if k < s.len() && s[k] == '[' {
            match parse_index(s, k + 1) {
                Err(e) => {
                    return Err(e);
                },
                Ok((v, m)) => {
                    match eat_char(s, m, ']') {
                        None => {
                            return Err(ParseError { at: m });
                        },
                        Some(m2) => {
                            index = Some(v);
                            k = m2;
                        },
                    }
                },
            }
        }
        fields.push(Field(name, index));
        proof {
            assert(k > j);
        }
        j = k;
    }
    Ok((LiteralSelector(fields), j))
}

/// Parse a string literal: standard escapes, four-digit unicode
/// escapes, and no raw control characters.
#[verifier::loop_isolation(false)]
fn parse_string(s: &Vec<char>, i: usize) -> (r: Result<(String, usize), ParseError>)
    requires
        i <= s@.len(),
    ensures
        r matches Ok(p) ==> i < p.1 <= s@.len(),
{
    let mut j = match eat_char(s, i, '"') {
        None => {
            return Err(ParseError { at: i });
        },
        Some(j) => j,
    };
    let mut out: Vec<char> = Vec::new();
    while j < s.len() && s[j] != '"'
        invariant
            i < j <= s@.len(),
        decreases s@.len() - j,
    {
        let c = s[j];
        if c == '\\' {
            if j + 1 >= s.len() {
                return Err(ParseError { at: j });
            }
            let e = s[j + 1];
            if e == '"' || e == '\\' || e == '/' {
                out.push(e);
                j = j + 2;
            } else if e == 'b' {
                out.push(match char_of_u32(8) {
                    Some(c) => c,
                    None => {
                        return Err(ParseError { at: j });
                    },
                });
                j = j + 2;
            } else if e == 'f' {
                out.push(match char_of_u32(12) {
                    Some(c) => c,
                    None => {
                        return Err(ParseError { at: j });
                    },
                });
                j = j + 2;
            } else if e == 'n' {
                out.push('\n');
                j = j + 2;
            } else if e == 'r' {
                out.push('\r');
                j = j + 2;
            } else if e == 't' {
                out.push('\t');
                j = j + 2;
            } else if e == 'u' {
                if s.len() - j < 6 {
                    return Err(ParseError { at: j });
                }
                let mut code: u32 = 0;
                let mut k: usize = 0;
                while k < 4
                    invariant
                        0 <= k <= 4,
                        j + 6 <= s@.len(),
                        code <= 0xFFFF,
                        k == 0 ==> code == 0,
                        k == 1 ==> code <= 0xF,
                        k == 2 ==> code <= 0xFF,
                        k == 3 ==> code <= 0xFFF,
                    decreases 4 - k,
                {
                    let h = s[j + 2 + k];
                    let d: u32 = if '0' <= h && h <= '9' {
                        h as u32 - 48
                    } else if 'a' <= h && h <= 'f' {
                        h as u32 - 87
                    } else if 'A' <= h && h <= 'F' {
                        h as u32 - 55
                    } else {
                        return Err(ParseError { at: j + 2 + k });
                    };
                    code = code * 16 + d;
                    k = k + 1;
                }
                match char_of_u32(code) {
                    Some(c) => out.push(c),
                    None => {
                        return Err(ParseError { at: j });
                    },
                }
                j = j + 6;
            } else {
                return Err(ParseError { at: j + 1 });
            }
        } else if (c as u32) < 0x20 {
            return Err(ParseError { at: j });
        } else {
            out.push(c);
            j = j + 1;
        }
    }
    match eat_char(s, j, '"') {
        None => Err(ParseError { at: j }),
        Some(j) => Ok((string_of_chars(&out), j)),
    }
}

/// Parse a position expression: a literal position, a selector path, or
/// a string comparison.
#[verifier::loop_isolation(false)]
fn parse_pos_expr(s: &Vec<char>, i: usize) -> (r: Result<(Position, usize), ParseError>)
    requires
        i <= s@.len(),
    ensures
        r matches Ok(p) ==> i < p.1 <= s@.len(),
{
    if i < s.len() && s[i] == '[' {
        match parse_position(s, i) {
            Err(e) => Err(e),
            Ok((p, j)) => Ok((Position::Literal(p), j)),
        }
    } else if i < s.len() && s[i] == '.' {
        match parse_selector(s, i) {
            Err(e) => Err(e),
            Ok((sel, j)) => Ok((Position::Selector(sel), j)),
        }
    } else if let Some(j) = eat_kw(s, i, "str_cmp_ignore_case") {
        match parse_str_cmp_args(s, j) {
            Err(e) => Err(e),
            Ok(((sel, lit), j)) => Ok((Position::StrCmpICase(sel, lit), j)),
        }
    } else if let Some(j) = eat_kw(s, i, "str_cmp") {
        match parse_str_cmp_args(s, j) {
            Err(e) => Err(e),
            Ok(((sel, lit), j)) => Ok((Position::StrCmp(sel, lit), j)),
        }
    } else {
        Err(ParseError { at: i })
    }
}

/// Parse the argument list of a string comparison: a selector and a
/// string literal.
#[verifier::loop_isolation(false)]
fn parse_str_cmp_args(s: &Vec<char>, i: usize) -> (r: Result<
    ((LiteralSelector, String), usize),
    ParseError,
>)
    requires
        i <= s@.len(),
    ensures
        r matches Ok(p) ==> i <= p.1 <= s@.len(),
{
    let j = match eat_char(s, skip_ws(s, i), '(') {
        None => {
            return Err(ParseError { at: i });
        },
        Some(j) => j,
    };
    let j = skip_ws(s, j);
    let (sel, j) = match parse_selector(s, j) {
        Err(e) => {
            return Err(e);
        },
        Ok(p) => p,
    };
    let j = match eat_char(s, skip_ws(s, j), ',') {
        None => {
            return Err(ParseError { at: j });
        },
        Some(j) => j,
    };
    let j = skip_ws(s, j);
    let (lit, j) = match parse_string(s, j) {
        Err(e) => {
            return Err(e);
        },
        Ok(p) => p,
    };
    match eat_char(s, skip_ws(s, j), ')') {
        None => Err(ParseError { at: j }),
        Some(j) => Ok(((sel, lit), j)),
    }
}

/// Parse a predicate: a three-way comparison leaf, or a boolean
/// combinator.
#[verifier::loop_isolation(false)]
fn parse_predicate(s: &Vec<char>, i: usize) -> (r: Result<(Predicate, usize), ParseError>)
    requires
        i <= s@.len(),
    ensures
        r matches Ok(p) ==> i < p.1 <= s@.len(),
    decreases s@.len() - i,
{
    if i >= s.len() {
        return Err(ParseError { at: i });
    }
    let c = s[i];
    if c == '<' || c == '>' || c == '=' {
        let j = match eat_char(s, skip_ws(s, i + 1), '(') {
            None => {
                return Err(ParseError { at: i + 1 });
            },
            Some(j) => j,
        };
        let j = skip_ws(s, j);
        let (pe, j) = match parse_pos_expr(s, j) {
            Err(e) => {
                return Err(e);
            },
            Ok(p) => p,
        };
        let j = match eat_char(s, skip_ws(s, j), ',') {
            None => {
                return Err(ParseError { at: j });
            },
            Some(j) => j,
        };
        let j = skip_ws(s, j);
        let (lit, j) = match parse_position(s, j) {
            Err(e) => {
                return Err(e);
            },
            Ok(p) => p,
        };
        let j = match eat_char(s, skip_ws(s, j), ')') {
            None => {
                return Err(ParseError { at: j });
            },
            Some(j) => j,
        };
        if c == '<' {
            Ok((Predicate::Less(pe, lit), j))
        } else if c == '>' {
            Ok((Predicate::Greater(pe, lit), j))
        } else {
            Ok((Predicate::Equal(pe, lit), j))
        }
    } else if c == '!' {
        let j = match eat_char(s, skip_ws(s, i + 1), '(') {
            None => {
                return Err(ParseError { at: i + 1 });
            },
            Some(j) => j,
        };
        let j = skip_ws(s, j);
        let (inner, j) = match parse_predicate(s, j) {
            Err(e) => {
                return Err(e);
            },
            Ok(p) => p,
        };
        match eat_char(s, skip_ws(s, j), ')') {
            None => Err(ParseError { at: j }),
            Some(j) => Ok((Predicate::Not(Box::new(inner)), j)),
        }
    } else if c == '&' || c == '|' {
        let j = match eat_char(s, skip_ws(s, i + 1), '(') {
            None => {
                return Err(ParseError { at: i + 1 });
            },
            Some(j) => j,
        };
        let j = skip_ws(s, j);
        let (lh, j) = match parse_predicate(s, j) {
            Err(e) => {
                return Err(e);
            },
            Ok(p) => p,
        };
        let j = match eat_char(s, skip_ws(s, j), ',') {
            None => {
                return Err(ParseError { at: j });
            },
            Some(j) => j,
        };
        let j = skip_ws(s, j);
        let (rh, j) = match parse_predicate(s, j) {
            Err(e) => {
                return Err(e);
            },
            Ok(p) => p,
        };
        match eat_char(s, skip_ws(s, j), ')') {
            None => Err(ParseError { at: j }),
            Some(j) => {
                if c == '&' {
                    Ok((Predicate::And(Box::new(lh), Box::new(rh)), j))
                } else {
                    Ok((Predicate::Or(Box::new(lh), Box::new(rh)), j))
                }
            },
        }
    } else {
        Err(ParseError { at: i })
    }
}

/// Parse a shape.
#[verifier::loop_isolation(false)]
fn parse_shape(s: &Vec<char>, i: usize) -> (r: Result<(Shape, usize), ParseError>)
    requires
        i <= s@.len(),
    ensures
        r matches Ok(p) ==> i < p.1 <= s@.len() && grammar_wf_shape(p.0),
{
    if let Some(j) = eat_kw(s, i, "point") {
        let j = match eat_char(s, skip_ws(s, j), '{') {
            None => {
                return Err(ParseError { at: j });
            },
            Some(j) => j,
        };
        let j = skip_ws(s, j);
        let (pos, j) = match parse_position(s, j) {
            Err(e) => {
                return Err(e);
            },
            Ok(p) => p,
        };
        let (space, j) = match parse_opt_space(s, j) {
            Err(e) => {
                return Err(e);
            },
            Ok(p) => p,
        };
        match eat_char(s, skip_ws(s, j), '}') {
            None => Err(ParseError { at: j }),
            Some(j) => Ok((Shape::Point(space, pos), j)),
        }
    } else if let Some(j) = eat_kw(s, i, "hyperrectangle") {
        let j = match eat_char(s, skip_ws(s, j), '{') {
            None => {
                return Err(ParseError { at: j });
            },
            Some(j) => j,
        };
        let mut corners: Vec<LiteralPosition> = Vec::new();
        let j = skip_ws(s, j);
        let (first, j) = match parse_position(s, j) {
            Err(e) => {
                return Err(e);
            },
            Ok(p) => p,
        };
        corners.push(first);
        let mut j = skip_ws(s, j);
        let mut space: Option<String> = None;
        while j < s.len() && s[j] == ',' && space.is_none()
            invariant
                i < j <= s@.len(),
        decreases s@.len() - j,
        {
            let k = skip_ws(s, j + 1);
            if k < s.len() && s[k] == '"' {
                match parse_string(s, k) {
                    Err(e) => {
                        return Err(e);
                    },
                    Ok((sp, m)) => {
                        space = Some(sp);
                        j = skip_ws(s, m);
                    },
                }
            } else {
                match parse_position(s, k) {
                    Err(e) => {
                        return Err(e);
                    },
                    Ok((p, m)) => {
                        corners.push(p);
                        j = skip_ws(s, m);
                    },
                }
            }
        }
        let j = match eat_char(s, j, '}') {
            None => {
                return Err(ParseError { at: j });
            },
            Some(j) => j,
        };
        if corners.len() < 2 || corners.len() % 2 != 0 {
            return Err(ParseError { at: j });
        }
        let space = match space {
            Some(sp) => sp,
            None => String::from_str("Universe"),
        };
        Ok((Shape::HyperRectangle(space, corners), j))
    } else if let Some(j) = eat_kw(s, i, "hypersphere") {
        let j = match eat_char(s, skip_ws(s, j), '{') {
            None => {
                return Err(ParseError { at: j });
            },
            Some(j) => j,
        };
        let j = skip_ws(s, j);
        let (center, j) = match parse_position(s, j) {
            Err(e) => {
                return Err(e);
            },
            Ok(p) => p,
        };
        let j = match eat_char(s, skip_ws(s, j), ',') {
            None => {
                return Err(ParseError { at: j });
            },
            Some(j) => j,
        };
        let j = skip_ws(s, j);
        let (radius, j) = match parse_positive_number(s, j) {
            Err(e) => {
                return Err(e);
            },
            Ok(p) => p,
        };
        let (space, j) = match parse_opt_space(s, j) {
            Err(e) => {
                return Err(e);
            },
            Ok(p) => p,
        };
        match eat_char(s, skip_ws(s, j), '}') {
            None => Err(ParseError { at: j }),
            Some(j) => Ok((Shape::HyperSphere(space, center, radius), j)),
        }
    } else if let Some(j) = eat_kw(s, i, "nifti") {
        let j = match eat_char(s, skip_ws(s, j), '{') {
            None => {
                return Err(ParseError { at: j });
            },
            Some(j) => j,
        };
        let j = match eat_kw(s, skip_ws(s, j), "uri") {
            None => {
                return Err(ParseError { at: j });
            },
            Some(j) => j,
        };
        let j = match eat_char(s, skip_ws(s, j), '(') {
            None => {
                return Err(ParseError { at: j });
            },
            Some(j) => j,
        };
        let j = skip_ws(s, j);
        let (_uri, j) = match parse_string(s, j) {
            Err(e) => {
                return Err(e);
            },
            Ok(p) => p,
        };
        let j = match eat_char(s, skip_ws(s, j), ')') {
            None => {
                return Err(ParseError { at: j });
            },
            Some(j) => j,
        };
        let j = match eat_char(s, skip_ws(s, j), ',') {
            None => {
                return Err(ParseError { at: j });
            },
            Some(j) => j,
        };
        let j = skip_ws(s, j);
        let (space, j) = match parse_string(s, j) {
            Err(e) => {
                return Err(e);
            },
            Ok(p) => p,
        };
        match eat_char(s, skip_ws(s, j), '}') {
            None => Err(ParseError { at: j }),
            Some(j) => Ok((Shape::Nifti(space), j)),
        }
    } else {
        Err(ParseError { at: i })
    }
}

/// Parse the optional trailing `, "space"` of a shape; the universe is
/// the default.
#[verifier::loop_isolation(false)]
fn parse_opt_space(s: &Vec<char>, i: usize) -> (r: Result<(String, usize), ParseError>)
    requires
        i <= s@.len(),
    ensures
        r matches Ok(p) ==> i <= p.1 <= s@.len(),
{
    let j = skip_ws(s, i);
    if j < s.len() && s[j] == ',' {
        let k = skip_ws(s, j + 1);
        match parse_string(s, k) {
            Err(e) => Err(e),
            Ok((sp, m)) => Ok((sp, m)),
        }
    } else {
        Ok((String::from_str("Universe"), j))
    }
}

/// Parse a bag expression.
#[verifier::loop_isolation(false)]
fn parse_bag(s: &Vec<char>, i: usize) -> (r: Result<(Bag, usize), ParseError>)
    requires
        i <= s@.len(),
    ensures
        r matches Ok(p) ==> i < p.1 <= s@.len() && grammar_wf_bag(p.0),
    decreases s@.len() - i,
{
    if let Some(j) = eat_kw(s, i, "inside") {
        let j = match eat_char(s, skip_ws(s, j), '(') {
            None => {
                return Err(ParseError { at: j });
            },
            Some(j) => j,
        };
        let j = skip_ws(s, j);
        let (shape, j) = match parse_shape(s, j) {
            Err(e) => {
                return Err(e);
            },
            Ok(p) => p,
        };
        match eat_char(s, skip_ws(s, j), ')') {
            None => Err(ParseError { at: j }),
            Some(j) => Ok((Bag::Inside(shape), j)),
        }
    } else if let Some(j) = eat_kw(s, i, "outside") {
        let j = match eat_char(s, skip_ws(s, j), '(') {
            None => {
                return Err(ParseError { at: j });
            },
            Some(j) => j,
        };
        let j = skip_ws(s, j);
        let (shape, j) = match parse_shape(s, j) {
            Err(e) => {
                return Err(e);
            },
            Ok(p) => p,
        };
        match eat_char(s, skip_ws(s, j), ')') {
            None => Err(ParseError { at: j }),
            Some(j) => Ok((Bag::Outside(shape), j)),
        }
    } else if let Some(j) = eat_kw(s, i, "distinct") {
        let j = match eat_char(s, skip_ws(s, j), '(') {
            None => {
                return Err(ParseError { at: j });
            },
            Some(j) => j,
        };
        let j = skip_ws(s, j);
        let (inner, j) = match parse_bag(s, j) {
            Err(e) => {
                return Err(e);
            },
            Ok(p) => p,
        };
        match eat_char(s, skip_ws(s, j), ')') {
            None => Err(ParseError { at: j }),
            Some(j) => Ok((Bag::Distinct(Box::new(inner)), j)),
        }
    } else if let Some(j) = eat_kw(s, i, "complement") {
        let j = match eat_char(s, skip_ws(s, j), '(') {
            None => {
                return Err(ParseError { at: j });
            },
            Some(j) => j,
        };
        let j = skip_ws(s, j);
        let (inner, j) = match parse_bag(s, j) {
            Err(e) => {
                return Err(e);
            },
            Ok(p) => p,
        };
        match eat_char(s, skip_ws(s, j), ')') {
            None => Err(ParseError { at: j }),
            Some(j) => Ok((Bag::Complement(Box::new(inner)), j)),
        }
    } else if let Some(j) = eat_kw(s, i, "intersection") {
        match parse_bag_pair(s, j) {
            Err(e) => Err(e),
            Ok(((lh, rh), j)) => Ok((Bag::Intersection(Box::new(lh), Box::new(rh)), j)),
        }
    } else if let Some(j) = eat_kw(s, i, "union") {
        match parse_bag_pair(s, j) {
            Err(e) => Err(e),
            Ok(((lh, rh), j)) => Ok((Bag::Union(Box::new(lh), Box::new(rh)), j)),
        }
    } else if let Some(j) = eat_kw(s, i, "filter") {
        let j = match eat_char(s, skip_ws(s, j), '(') {
            None => {
                return Err(ParseError { at: j });
            },
            Some(j) => j,
        };
        let j = skip_ws(s, j);
        if j < s.len() && (s[j] == '<' || s[j] == '>' || s[j] == '=' || s[j] == '!' || s[j] == '&'
            || s[j] == '|') {
            let (pred, j) = match parse_predicate(s, j) {
                Err(e) => {
                    return Err(e);
                },
                Ok(p) => p,
            };
            let j = skip_ws(s, j);
            if j < s.len() && s[j] == ',' {
                let k = skip_ws(s, j + 1);
                let (inner, m) = match parse_bag(s, k) {
                    Err(e) => {
                        return Err(e);
                    },
                    Ok(p) => p,
                };
                match eat_char(s, skip_ws(s, m), ')') {
                    None => Err(ParseError { at: m }),
                    Some(m) => Ok((Bag::Filter(Some(pred), Some(Box::new(inner))), m)),
                }
            } else {
                match eat_char(s, j, ')') {
                    None => Err(ParseError { at: j }),
                    Some(j) => Ok((Bag::Filter(Some(pred), None), j)),
                }
            }
        } else {
            let (inner, j) = match parse_bag(s, j) {
                Err(e) => {
                    return Err(e);
                },
                Ok(p) => p,
            };
            match eat_char(s, skip_ws(s, j), ')') {
                None => Err(ParseError { at: j }),
                Some(j) => Ok((Bag::Filter(None, Some(Box::new(inner))), j)),
            }
        }
    } else if let Some(j) = eat_kw(s, i, "bag") {
        let j = match eat_char(s, skip_ws(s, j), '{') {
            None => {
                return Err(ParseError { at: j });
            },
            Some(j) => j,
        };
        let mut bags: Vec<Bag> = Vec::new();
        let j = skip_ws(s, j);
        let (first, j) = match parse_bag(s, j) {
            Err(e) => {
                return Err(e);
            },
            Ok(p) => p,
        };
        bags.push(first);
        let mut j = skip_ws(s, j);
        while j < s.len() && s[j] == ','
            invariant
                i < j <= s@.len(),
                forall|x: int| 0 <= x < bags@.len() ==> grammar_wf_bag(#[trigger] bags@[x]),
            decreases s@.len() - j,
        {
            let k = skip_ws(s, j + 1);
            match parse_bag(s, k) {
                Err(e) => {
                    return Err(e);
                },
                Ok((b, m)) => {
                    bags.push(b);
                    j = skip_ws(s, m);
                },
            }
        }
        match eat_char(s, j, '}') {
            None => Err(ParseError { at: j }),
            Some(j) => Ok((Bag::Bag(bags), j)),
        }
    } else {
        // A bare shape stands for the set of positions inside it.
        match parse_shape(s, i) {
            Err(e) => Err(e),
            Ok((shape, j)) => Ok((Bag::Inside(shape), j)),
        }
    }
}

/// Parse the strictly binary argument list of an intersection or union.
#[verifier::loop_isolation(false)]
fn parse_bag_pair(s: &Vec<char>, i: usize) -> (r: Result<((Bag, Bag), usize), ParseError>)
    requires
        i <= s@.len(),
    ensures
        r matches Ok(p) ==> i <= p.1 <= s@.len() && grammar_wf_bag(p.0.0) && grammar_wf_bag(
            p.0.1,
        ),
    decreases s@.len() - i,
{
    let j = match eat_char(s, skip_ws(s, i), '(') {
        None => {
            return Err(ParseError { at: i });
        },
        Some(j) => j,
    };
    let j = skip_ws(s, j);
    let (lh, j) = match parse_bag(s, j) {
        Err(e) => {
            return Err(e);
        },
        Ok(p) => p,
    };
    let j = match eat_char(s, skip_ws(s, j), ',') {
        None => {
            return Err(ParseError { at: j });
        },
        Some(j) => j,
    };
    let j = skip_ws(s, j);
    let (rh, j) = match parse_bag(s, j) {
        Err(e) => {
            return Err(e);
        },
        Ok(p) => p,
    };
    match eat_char(s, skip_ws(s, j), ')') {
        None => Err(ParseError { at: j }),
        Some(j) => Ok(((lh, rh), j)),
    }
}

/// Parse a JSON value, including selectors and aggregations.
#[verifier::loop_isolation(false)]
fn parse_json_value(s: &Vec<char>, i: usize) -> (r: Result<(JsonValue, usize), ParseError>)
    requires
        i <= s@.len(),
    ensures
        r matches Ok(p) ==> i < p.1 <= s@.len(),
    decreases s@.len() - i,
{
    if i >= s.len() {
        return Err(ParseError { at: i });
    }
    if let Some(j) = eat_kw(s, i, "true") {
        return Ok((JsonValue::Bool(true), j));
    }
    if let Some(j) = eat_kw(s, i, "false") {
        return Ok((JsonValue::Bool(false), j));
    }
    if let Some(j) = eat_kw(s, i, "null") {
        return Ok((JsonValue::Null, j));
    }
    if let Some(j) = eat_kw(s, i, "count") {
        let j = match eat_char(s, skip_ws(s, j), '(') {
            None => {
                return Err(ParseError { at: j });
            },
            Some(j) => j,
        };
        let j = skip_ws(s, j);
        let (distinct, j) = match eat_kw(s, j, "distinct") {
            Some(k) => (true, skip_ws(s, k)),
            None => (false, j),
        };
        let (sel, j) = match parse_selector(s, j) {
            Err(e) => {
                return Err(e);
            },
            Ok(p) => p,
        };
        return match eat_char(s, skip_ws(s, j), ')') {
            None => Err(ParseError { at: j }),
            Some(j) => Ok((JsonValue::Aggregation(Aggregation::Count(distinct, sel)), j)),
        };
    }
    if let Some(j) = eat_kw(s, i, "sum") {
        return match parse_agg_selector(s, j) {
            Err(e) => Err(e),
            Ok((sel, j)) => Ok((JsonValue::Aggregation(Aggregation::Sum(sel)), j)),
        };
    }
    if let Some(j) = eat_kw(s, i, "min") {
        return match parse_agg_selector(s, j) {
            Err(e) => Err(e),
            Ok((sel, j)) => Ok((JsonValue::Aggregation(Aggregation::Min(sel)), j)),
        };
    }
    if let Some(j) = eat_kw(s, i, "max") {
        return match parse_agg_selector(s, j) {
            Err(e) => Err(e),
            Ok((sel, j)) => Ok((JsonValue::Aggregation(Aggregation::Max(sel)), j)),
        };
    }
    let c = s[i];
    if c == '"' {
        match parse_string(s, i) {
            Err(e) => Err(e),
            Ok((st, j)) => Ok((JsonValue::String(st), j)),
        }
    } else if c == '.' {
        match parse_selector(s, i) {
            Err(e) => Err(e),
            Ok((sel, j)) => Ok((JsonValue::Selector(sel), j)),
        }
    } else if c == '-' || ('0' <= c && c <= '9') {
        match parse_json_number(s, i) {
            Err(e) => Err(e),
            Ok((n, j)) => Ok((JsonValue::JsonNumber(n), j)),
        }
    } else if c == '[' {
        let mut j = i + 1;
        let mut items: Vec<JsonValue> = Vec::new();
        j = skip_ws(s, j);
        if j < s.len() && s[j] == ']' {
            return Ok((JsonValue::Array(items), j + 1));
        }
        let (first, j2) = match parse_json_value(s, j) {
            Err(e) => {
                return Err(e);
            },
            Ok(p) => p,
        };
        items.push(first);
        let mut j = skip_ws(s, j2);
        while j < s.len() && s[j] == ','
            invariant
                i < j <= s@.len(),
            decreases s@.len() - j,
        {
            let k = skip_ws(s, j + 1);
            match parse_json_value(s, k) {
                Err(e) => {
                    return Err(e);
                },
                Ok((v, m)) => {
                    items.push(v);
                    j = skip_ws(s, m);
                },
            }
        }
        match eat_char(s, j, ']') {
            None => Err(ParseError { at: j }),
            Some(j) => Ok((JsonValue::Array(items), j)),
        }
    } else if c == '{' {
        let mut j = skip_ws(s, i + 1);
        let mut pairs: Vec<(String, JsonValue)> = Vec::new();
        if j < s.len() && s[j] == '}' {
            return Ok((JsonValue::Object(pairs), j + 1));
        }
        let (first, j2) = match parse_json_pair(s, j) {
            Err(e) => {
                return Err(e);
            },
            Ok(p) => p,
        };
        pairs.push(first);
        let mut j = skip_ws(s, j2);
        while j < s.len() && s[j] == ','
            invariant
                i < j <= s@.len(),
            decreases s@.len() - j,
        {
            let k = skip_ws(s, j + 1);
            match parse_json_pair(s, k) {
                Err(e) => {
                    return Err(e);
                },
                Ok((p, m)) => {
                    pairs.push(p);
                    j = skip_ws(s, m);
                },
            }
        }
        match eat_char(s, j, '}') {
            None => Err(ParseError { at: j }),
            Some(j) => Ok((JsonValue::Object(pairs), j)),
        }
    } else {
        Err(ParseError { at: i })
    }
}

/// Parse one `"name": value` pair of a JSON object.
#[verifier::loop_isolation(false)]
fn parse_json_pair(s: &Vec<char>, i: usize) -> (r: Result<((String, JsonValue), usize), ParseError>)
    requires
        i <= s@.len(),
    ensures
        r matches Ok(p) ==> i < p.1 <= s@.len(),
    decreases s@.len() - i,
{
    let (name, j) = match parse_string(s, i) {
        Err(e) => {
            return Err(e);
        },
        Ok(p) => p,
    };
    let j = match eat_char(s, skip_ws(s, j), ':') {
        None => {
            return Err(ParseError { at: j });
        },
        Some(j) => j,
    };
    let j = skip_ws(s, j);
    match parse_json_value(s, j) {
        Err(e) => Err(e),
        Ok((v, m)) => Ok(((name, v), m)),
    }
}

/// Parse the parenthesised selector of an aggregation.
#[verifier::loop_isolation(false)]
fn parse_agg_selector(s: &Vec<char>, i: usize) -> (r: Result<(LiteralSelector, usize), ParseError>)
    requires
        i <= s@.len(),
    ensures
        r matches Ok(p) ==> i <= p.1 <= s@.len(),
{
    let j = match eat_char(s, skip_ws(s, i), '(') {
        None => {
            return Err(ParseError { at: i });
        },
        Some(j) => j,
    };
    let j = skip_ws(s, j);
    let (sel, j) = match parse_selector(s, j) {
        Err(e) => {
            return Err(e);
        },
        Ok(p) => p,
    };
    match eat_char(s, skip_ws(s, j), ')') {
        None => Err(ParseError { at: j }),
        Some(j) => Ok((sel, j)),
    }
}

/// Parse a projection: `nifti([selector,] bag)` or `json(value, bag)`.
/// A projection's result is expressed in its bag's space.
#[verifier::loop_isolation(false)]
fn parse_projection(s: &Vec<char>, i: usize) -> (r: Result<(Projection, usize), ParseError>)
    requires
        i <= s@.len(),
    ensures
        r matches Ok(p) ==> i < p.1 <= s@.len(),
{
    if let Some(j) = eat_kw(s, i, "nifti") {
        let j = match eat_char(s, skip_ws(s, j), '(') {
            None => {
                return Err(ParseError { at: j });
            },
            Some(j) => j,
        };
        let j = skip_ws(s, j);
        if j < s.len() && s[j] == '.' {
            let (sel, j) = match parse_selector(s, j) {
                Err(e) => {
                    return Err(e);
                },
                Ok(p) => p,
            };
            let j = match eat_char(s, skip_ws(s, j), ',') {
                None => {
                    return Err(ParseError { at: j });
                },
                Some(j) => j,
            };
            let j = skip_ws(s, j);
            let (bag, j) = match parse_bag(s, j) {
                Err(e) => {
                    return Err(e);
                },
                Ok(p) => p,
            };
            match eat_char(s, skip_ws(s, j), ')') {
                None => Err(ParseError { at: j }),
                Some(j) => {
                    let space = String::from_str(bag.space());
                    Ok((Projection::Nifti(space, sel, bag), j))
                },
            }
        } else {
            let (bag, j) = match parse_bag(s, j) {
                Err(e) => {
                    return Err(e);
                },
                Ok(p) => p,
            };
            match eat_char(s, skip_ws(s, j), ')') {
                None => Err(ParseError { at: j }),
                Some(j) => {
                    let space = String::from_str(bag.space());
                    Ok((Projection::Nifti(space, LiteralSelector(Vec::new()), bag), j))
                },
            }
        }
    } else if let Some(j) = eat_kw(s, i, "json") {
        let j = match eat_char(s, skip_ws(s, j), '(') {
            None => {
                return Err(ParseError { at: j });
            },
            Some(j) => j,
        };
        let j = skip_ws(s, j);
        let (value, j) = match parse_json_value(s, j) {
            Err(e) => {
                return Err(e);
            },
            Ok(p) => p,
        };
        let j = match eat_char(s, skip_ws(s, j), ',') {
            None => {
                return Err(ParseError { at: j });
            },
            Some(j) => j,
        };
        let j = skip_ws(s, j);
        let (bag, j) = match parse_bag(s, j) {
            Err(e) => {
                return Err(e);
            },
            Ok(p) => p,
        };
        match eat_char(s, skip_ws(s, j), ')') {
            None => Err(ParseError { at: j }),
            Some(j) => {
                let space = String::from_str(bag.space());
                Ok((Projection::JSON(space, value, bag), j))
            },
        }
    } else {
        Err(ParseError { at: i })
    }
}

/// The parser of whole queries: an optional projection.
pub struct QueryParser;

impl QueryParser {
    /// A fresh query parser.
    pub fn new() -> QueryParser {
        QueryParser
    }

    /// Parse a query: blank input is a valid empty query; anything else
    /// must be exactly one projection.
    pub fn parse(&self, input: &str) -> (r: Result<Option<Projection>, ParseError>) {
        let s = chars_of(input);
        let i = skip_ws(&s, 0);
        if i >= s.len() {
            return Ok(None);
        }
        match parse_projection(&s, i) {
            Err(e) => Err(e),
            Ok((p, j)) => {
                let j = skip_ws(&s, j);
                if j < s.len() {
                    Err(ParseError { at: j })
                } else {
                    Ok(Some(p))
                }
            },
        }
    }
}

/// The parser of bare filter expressions: exactly one bag.
pub struct FiltersParser;

impl FiltersParser {
    /// A fresh filters parser.
    pub fn new() -> FiltersParser {
        FiltersParser
    }

    /// Parse a bag expression; the whole input must be consumed.  Every
    /// rectangle of a parsed tree has an even number of at least two
    /// corners.
    pub fn parse(&self, input: &str) -> (r: Result<Bag, ParseError>)
        ensures
            r matches Ok(b) ==> grammar_wf_bag(b),
    {
        let s = chars_of(input);
        let i = skip_ws(&s, 0);
        match parse_bag(&s, i) {
            Err(e) => Err(e),
            Ok((b, j)) => {
                let j = skip_ws(&s, j);
                if j < s.len() {
                    Err(ParseError { at: j })
                } else {
                    Ok(b)
                }
            },
        }
    }
}

} // verus!
