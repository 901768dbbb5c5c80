//! The stated laws of the engine, each proved against the executable
//! functions' own specifications.

use vstd::prelude::*;

use crate::errors::ErrorV;
use crate::executors::{spec_execute_bag, spec_inside, spec_intersect, spec_outside};
use crate::fp::Fp;
use crate::store::{
    ObjV, ResultSetV, Store, dedup_upto, find_group, group_upto, has_position, lemma_find_group,
    spec_dedup, spec_distinct, spec_group,
};
use crate::symbols::{Bag, bag_space};
use crate::validators::spec_validate_bag;

verus! {

/// Whether each space appears at most once among the groups.
pub open spec fn unique_spaces(g: ResultSetV) -> bool {
    forall|i: int, j: int| 0 <= i < j < g.len() ==> (#[trigger] g[i].0) != (#[trigger] g[j].0)
}

/// Grouping never repeats a space.
proof fn lemma_group_upto_unique(rs: ResultSetV, n: int)
    ensures
        unique_spaces(group_upto(rs, n)),
        forall|i: int, j: int|
            0 <= i < group_upto(rs, n).len() && 0 <= j < group_upto(rs, n).len() && i != j ==> (
            #[trigger] group_upto(rs, n)[i].0) != (#[trigger] group_upto(rs, n)[j].0),
    decreases n,
{
    if n > 0 {
        lemma_group_upto_unique(rs, n - 1);
        let prev = group_upto(rs, n - 1);
        let sp = rs[n - 1].0;
        lemma_find_group(prev, sp);
        match find_group(prev, sp) {
            Some(i) => {
                let cur = prev.update(i, (sp, prev[i].1 + rs[n - 1].1));
                assert(prev[i].0 == sp);
                assert forall|x: int, y: int|
                    0 <= x < cur.len() && 0 <= y < cur.len() && x != y implies (
                #[trigger] cur[x].0) != (#[trigger] cur[y].0) by {
                    assert(cur[x].0 == prev[x].0);
                    assert(cur[y].0 == prev[y].0);
                }
            },
            None => {},
        }
    }
}

/// Grouping an already-grouped result set changes nothing.
proof fn lemma_group_of_grouped(g: ResultSetV)
    requires
        unique_spaces(g),
    ensures
        spec_group(g) == g,
{
    lemma_group_of_grouped_upto(g, g.len() as int);
    assert(g.take(g.len() as int) =~= g);
}

/// The prefix form of `lemma_group_of_grouped`.
proof fn lemma_group_of_grouped_upto(g: ResultSetV, n: int)
    requires
        unique_spaces(g),
        0 <= n <= g.len(),
    ensures
        group_upto(g, n) == g.take(n),
    decreases n,
{
    if n <= 0 {
        assert(group_upto(g, n) =~= g.take(n));
    } else {
        lemma_group_of_grouped_upto(g, n - 1);
        let prev = g.take(n - 1);
        let sp = g[n - 1].0;
        lemma_find_group(prev, sp);
        match find_group(prev, sp) {
            Some(i) => {
                assert(prev[i] == g[i]);
                assert(g[i].0 == sp && i < n - 1);
                assert(false);
            },
            None => {},
        }
        assert(group_upto(g, n) == prev.push((sp, g[n - 1].1)));
        assert((sp, g[n - 1].1) == g[n - 1]);
        assert(prev.push(g[n - 1]) =~= g.take(n));
    }
}

/// Whether no object repeats in the sequence.
pub open spec fn distinct_objs(s: Seq<ObjV>) -> bool {
    forall|i: int, j: int| 0 <= i < j < s.len() ==> (#[trigger] s[i]) != (#[trigger] s[j])
}

/// De-duplication leaves no repetition.
proof fn lemma_dedup_distinct(s: Seq<ObjV>, n: int)
    ensures
        distinct_objs(dedup_upto(s, n)),
    decreases n,
{
    if n > 0 {
        lemma_dedup_distinct(s, n - 1);
        let rest = dedup_upto(s, n - 1);
        if !rest.contains(s[n - 1]) {
            assert forall|i: int, j: int|
                0 <= i < j < rest.push(s[n - 1]).len() implies (#[trigger] rest.push(s[n - 1])[i])
                != (#[trigger] rest.push(s[n - 1])[j]) by {
                if j == rest.len() {
                    assert(rest.push(s[n - 1])[i] == rest[i]);
                    assert(rest.contains(rest[i]));
                }
            }
        }
    }
}

/// De-duplicating a repetition-free sequence changes nothing.
proof fn lemma_dedup_of_distinct(s: Seq<ObjV>)
    requires
        distinct_objs(s),
    ensures
        spec_dedup(s) == s,
{
    lemma_dedup_of_distinct_upto(s, s.len() as int);
    assert(s.take(s.len() as int) =~= s);
}

/// The prefix form of `lemma_dedup_of_distinct`.
proof fn lemma_dedup_of_distinct_upto(s: Seq<ObjV>, n: int)
    requires
        distinct_objs(s),
        0 <= n <= s.len(),
    ensures
        dedup_upto(s, n) == s.take(n),
    decreases n,
{
    if n <= 0 {
        assert(dedup_upto(s, n) =~= s.take(n));
    } else {
        lemma_dedup_of_distinct_upto(s, n - 1);
        let prev = s.take(n - 1);
        if prev.contains(s[n - 1]) {
            let i = choose|i: int| 0 <= i < prev.len() && prev[i] == s[n - 1];
            assert(s[i] == s[n - 1]);
            assert(false);
        }
        assert(prev.push(s[n - 1]) =~= s.take(n));
    }
}

/// De-duplication twice is de-duplication once.
pub proof fn lemma_dedup_idempotent(s: Seq<ObjV>)
    ensures
        spec_dedup(spec_dedup(s)) == spec_dedup(s),
{
    lemma_dedup_distinct(s, s.len() as int);
    lemma_dedup_of_distinct(spec_dedup(s));
}

/// The distinct operator is idempotent: applying it twice yields the
/// same per-space groups as applying it once.
pub proof fn lemma_distinct_idempotent(rs: ResultSetV)
    ensures
        spec_distinct(spec_distinct(rs)) == spec_distinct(rs),
{
    let d = spec_distinct(rs);
    lemma_group_upto_unique(rs, rs.len() as int);
    assert(unique_spaces(spec_group(rs)));
    assert forall|i: int, j: int| 0 <= i < j < d.len() implies (#[trigger] d[i].0) != (
    #[trigger] d[j].0) by {
        assert(d[i].0 == spec_group(rs)[i].0);
        assert(d[j].0 == spec_group(rs)[j].0);
    }
    lemma_group_of_grouped(d);
    assert(spec_distinct(d) =~= d) by {
        assert(spec_distinct(d).len() == d.len());
        assert forall|i: int| 0 <= i < d.len() implies #[trigger] spec_distinct(d)[i] == d[i] by {
            assert(d[i] == (spec_group(rs)[i].0, spec_dedup(spec_group(rs)[i].1)));
            assert(spec_distinct(d)[i] == (d[i].0, spec_dedup(d[i].1)));
            lemma_dedup_idempotent(spec_group(rs)[i].1);
        }
    }
}

/// The distinct operator is idempotent at the executor: wrapping a bag
/// in `Distinct` twice executes to exactly what wrapping it once does.
pub proof fn lemma_execute_distinct_idempotent(
    b: Bag,
    core: Seq<char>,
    st: Store,
    vp: Option<(Seq<Fp>, Seq<Fp>)>,
)
    ensures
        spec_execute_bag(
            Bag::Distinct(Box::new(Bag::Distinct(Box::new(b)))),
            core,
            st,
            vp,
        ) == spec_execute_bag(Bag::Distinct(Box::new(b)), core, st, vp),
{
    if crate::store::spec_has_core(st, core) {
        match spec_execute_bag(b, core, st, vp) {
            Err(_) => {},
            Ok(child) => {
                lemma_distinct_idempotent(child);
            },
        }
    }
}

/// The objects a result set reports for one space: the concatenation of
/// its groups for that space, in order.
pub open spec fn count_in_space(rs: ResultSetV, space: Seq<char>) -> nat
    decreases rs.len(),
{
    if rs.len() == 0 {
        0
    } else {
        count_in_space(rs.drop_last(), space) + if rs.last().0 == space {
            rs.last().1.len()
        } else {
            0
        }
    }
}

/// Counts add over concatenation.
proof fn lemma_count_concat(a: ResultSetV, b: ResultSetV, space: Seq<char>)
    ensures
        count_in_space(a + b, space) == count_in_space(a, space) + count_in_space(b, space),
    decreases b.len(),
{
    if b.len() == 0 {
        assert(a + b =~= a);
    } else {
        assert((a + b).drop_last() =~= a + b.drop_last());
        assert((a + b).last() == b.last());
        lemma_count_concat(a, b.drop_last(), space);
    }
}

/// A union's size, per matching space, is exactly the sum of its two
/// operands' sizes: concatenation implies no implicit de-duplication.
pub proof fn lemma_union_counts(
    lh: Bag,
    rh: Bag,
    core: Seq<char>,
    st: Store,
    vp: Option<(Seq<Fp>, Seq<Fp>)>,
    space: Seq<char>,
)
    requires
        spec_execute_bag(Bag::Union(Box::new(lh), Box::new(rh)), core, st, vp) is Ok,
        spec_execute_bag(lh, core, st, vp) is Ok,
        spec_execute_bag(rh, core, st, vp) is Ok,
    ensures
        count_in_space(
            spec_execute_bag(Bag::Union(Box::new(lh), Box::new(rh)), core, st, vp)->Ok_0,
            space,
        ) == count_in_space(spec_execute_bag(lh, core, st, vp)->Ok_0, space) + count_in_space(
            spec_execute_bag(rh, core, st, vp)->Ok_0,
            space,
        ),
{
    let a = spec_execute_bag(lh, core, st, vp)->Ok_0;
    let b = spec_execute_bag(rh, core, st, vp)->Ok_0;
    lemma_count_concat(a, b, space);
    lemma_count_concat(b, a, space);
}

/// A cross-space intersection fails validation with a space-mismatch
/// error naming both spaces; never anything silently resolved.
pub proof fn lemma_intersection_space_mismatch(lh: Bag, rh: Bag)
    requires
        bag_space(lh) != bag_space(rh),
    ensures
        spec_validate_bag(Bag::Intersection(Box::new(lh), Box::new(rh)))
            == Err::<crate::types::TypeV, ErrorV>(
            ErrorV::SpaceMismatch(bag_space(lh), bag_space(rh)),
        ),
{
}

/// A cross-space union fails validation with a space-mismatch error
/// naming both spaces.
pub proof fn lemma_union_space_mismatch(lh: Bag, rh: Bag)
    requires
        bag_space(lh) != bag_space(rh),
    ensures
        spec_validate_bag(Bag::Union(Box::new(lh), Box::new(rh))) == Err::<
            crate::types::TypeV,
            ErrorV,
        >(ErrorV::SpaceMismatch(bag_space(lh), bag_space(rh))),
{
}

/// Whether a result set reports some object at the given position for
/// the given space, in any of its groups.
pub open spec fn reports_position(rs: ResultSetV, space: Seq<char>, pos: Seq<Fp>) -> bool {
    exists|g: int|
        0 <= g < rs.len() && (#[trigger] rs[g]).0 == space && has_position(rs[g].1, pos)
}

/// Presence of a position splits over concatenation.
proof fn lemma_has_position_concat(a: Seq<ObjV>, b: Seq<ObjV>, pos: Seq<Fp>)
    ensures
        has_position(a + b, pos) <==> (has_position(a, pos) || has_position(b, pos)),
{
    if has_position(a + b, pos) {
        let j = choose|j: int| 0 <= j < (a + b).len() && (a + b)[j].position == pos;
        if j < a.len() {
            assert(a[j] == (a + b)[j]);
            assert(has_position(a, pos));
        } else {
            assert(b[j - a.len()] == (a + b)[j]);
            assert(has_position(b, pos));
        }
    }
    if has_position(a, pos) {
        let j = choose|j: int| 0 <= j < a.len() && a[j].position == pos;
        assert((a + b)[j] == a[j]);
        assert(has_position(a + b, pos));
    }
    if has_position(b, pos) {
        let j = choose|j: int| 0 <= j < b.len() && b[j].position == pos;
        assert((a + b)[j + a.len()] == b[j]);
        assert(has_position(a + b, pos));
    }
}

/// Grouping changes which group holds an object, never whether some
/// group of a space holds it.
proof fn lemma_group_upto_reports(rs: ResultSetV, n: int, space: Seq<char>, pos: Seq<Fp>)
    requires
        0 <= n <= rs.len(),
    ensures
        reports_position(group_upto(rs, n), space, pos) <==> reports_position(
            rs.take(n),
            space,
            pos,
        ),
    decreases n,
{
    if n <= 0 {
        assert(group_upto(rs, n) =~= Seq::<(Seq<char>, Seq<ObjV>)>::empty());
        assert(rs.take(n) =~= Seq::<(Seq<char>, Seq<ObjV>)>::empty());
    } else {
        lemma_group_upto_reports(rs, n - 1, space, pos);
        let prev = group_upto(rs, n - 1);
        let sp = rs[n - 1].0;
        let objs = rs[n - 1].1;
        let cur = group_upto(rs, n);
        lemma_find_group(prev, sp);
        assert(rs.take(n).drop_last() =~= rs.take(n - 1));
        assert(rs.take(n).last() == rs[n - 1]);
        // The new prefix reports the position exactly when the old one
        // did, or the new entry carries it.
        assert(reports_position(rs.take(n), space, pos) <==> (reports_position(
            rs.take(n - 1),
            space,
            pos,
        ) || (sp == space && has_position(objs, pos)))) by {
            if reports_position(rs.take(n), space, pos) {
                let g = choose|g: int|
                    0 <= g < rs.take(n).len() && (#[trigger] rs.take(n)[g]).0 == space
                        && has_position(rs.take(n)[g].1, pos);
                if g < n - 1 {
                    assert(rs.take(n - 1)[g] == rs.take(n)[g]);
                    assert(reports_position(rs.take(n - 1), space, pos));
                }
            }
            if reports_position(rs.take(n - 1), space, pos) {
                let g = choose|g: int|
                    0 <= g < rs.take(n - 1).len() && (#[trigger] rs.take(n - 1)[g]).0 == space
                        && has_position(rs.take(n - 1)[g].1, pos);
                assert(rs.take(n)[g] == rs.take(n - 1)[g]);
                assert(reports_position(rs.take(n), space, pos));
            }
            if sp == space && has_position(objs, pos) {
                assert(rs.take(n)[n - 1] == rs[n - 1]);
                assert(reports_position(rs.take(n), space, pos));
            }
        }
        match find_group(prev, sp) {
            Some(i) => {
                assert(cur == prev.update(i, (sp, prev[i].1 + objs)));
                lemma_has_position_concat(prev[i].1, objs, pos);
                assert(reports_position(cur, space, pos) <==> (reports_position(
                    prev,
                    space,
                    pos,
                ) || (sp == space && has_position(objs, pos)))) by {
                    if reports_position(cur, space, pos) {
                        let g = choose|g: int|
                            0 <= g < cur.len() && (#[trigger] cur[g]).0 == space && has_position(
                                cur[g].1,
                                pos,
                            );
                        if g != i {
                            assert(cur[g] == prev[g]);
                            assert(reports_position(prev, space, pos));
                        }
                    }
                    if reports_position(prev, space, pos) {
                        let g = choose|g: int|
                            0 <= g < prev.len() && (#[trigger] prev[g]).0 == space && has_position(
                                prev[g].1,
                                pos,
                            );
                        if g != i {
                            assert(cur[g] == prev[g]);
                            assert(reports_position(cur, space, pos));
                        } else {
                            assert(cur[i].0 == space);
                            assert(reports_position(cur, space, pos));
                        }
                    }
                    if sp == space && has_position(objs, pos) {
                        assert(cur[i].0 == space && has_position(cur[i].1, pos));
                        assert(reports_position(cur, space, pos));
                    }
                }
            },
            None => {
                assert(cur == prev.push((sp, objs)));
                assert(reports_position(cur, space, pos) <==> (reports_position(
                    prev,
                    space,
                    pos,
                ) || (sp == space && has_position(objs, pos)))) by {
                    if reports_position(cur, space, pos) {
                        let g = choose|g: int|
                            0 <= g < cur.len() && (#[trigger] cur[g]).0 == space && has_position(
                                cur[g].1,
                                pos,
                            );
                        if g < prev.len() {
                            assert(cur[g] == prev[g]);
                            assert(reports_position(prev, space, pos));
                        }
                    }
                    if reports_position(prev, space, pos) {
                        let g = choose|g: int|
                            0 <= g < prev.len() && (#[trigger] prev[g]).0 == space && has_position(
                                prev[g].1,
                                pos,
                            );
                        assert(cur[g] == prev[g]);
                        assert(reports_position(cur, space, pos));
                    }
                    if sp == space && has_position(objs, pos) {
                        assert(cur[prev.len() as int].0 == space);
                        assert(reports_position(cur, space, pos));
                    }
                }
            },
        }
    }
}

/// Grouping preserves reported positions, space by space.
pub proof fn lemma_group_reports(rs: ResultSetV, space: Seq<char>, pos: Seq<Fp>)
    ensures
        reports_position(spec_group(rs), space, pos) <==> reports_position(rs, space, pos),
{
    lemma_group_upto_reports(rs, rs.len() as int, space, pos);
    assert(rs.take(rs.len() as int) =~= rs);
}

/// Every object a probe filter keeps comes from the filtered group and
/// met the probe condition.
proof fn lemma_filter_objs_elem(
    objs: Seq<ObjV>,
    probe: Seq<ObjV>,
    keep: bool,
    n: int,
    oi: int,
)
    requires
        0 <= n <= objs.len(),
        0 <= oi < crate::executors::filter_objs_by_probe(objs, probe, keep, n).len(),
    ensures
        ({
            let kept = crate::executors::filter_objs_by_probe(objs, probe, keep, n);
            &&& exists|idx: int| 0 <= idx < n && #[trigger] objs[idx] == kept[oi]
            &&& has_position(probe, kept[oi].position) == keep
        }),
    decreases n,
{
    let kept = crate::executors::filter_objs_by_probe(objs, probe, keep, n);
    let rest = crate::executors::filter_objs_by_probe(objs, probe, keep, n - 1);
    if n > 0 {
        if has_position(probe, objs[n - 1].position) == keep && oi == rest.len() {
            assert(objs[n - 1] == kept[oi]);
        } else {
            lemma_filter_objs_elem(objs, probe, keep, n - 1, oi);
            assert(rest[oi] == kept[oi]);
        }
    }
}

/// Every group a probe filter emits comes from a source group of the
/// same space, filtered against the probe's group for that space.
proof fn lemma_filter_by_probe_elem(
    rs: ResultSetV,
    probe: ResultSetV,
    keep: bool,
    n: int,
    gi: int,
)
    requires
        0 <= n <= rs.len(),
        0 <= gi < crate::executors::filter_by_probe_upto(rs, probe, keep, n).len(),
    ensures
        ({
            let out = crate::executors::filter_by_probe_upto(rs, probe, keep, n);
            &&& find_group(probe, out[gi].0) is Some
            &&& 0 <= find_group(probe, out[gi].0)->Some_0 < probe.len()
            &&& exists|g0: int|
                {
                    &&& 0 <= g0 < n
                    &&& (#[trigger] rs[g0]).0 == out[gi].0
                    &&& out[gi].1 == crate::executors::filter_objs_by_probe(
                        rs[g0].1,
                        probe[find_group(probe, out[gi].0)->Some_0].1,
                        keep,
                        rs[g0].1.len() as int,
                    )
                }
        }),
    decreases n,
{
    let out = crate::executors::filter_by_probe_upto(rs, probe, keep, n);
    let rest = crate::executors::filter_by_probe_upto(rs, probe, keep, n - 1);
    if n > 0 {
        match find_group(probe, rs[n - 1].0) {
            None => {
                lemma_filter_by_probe_elem(rs, probe, keep, n - 1, gi);
            },
            Some(j) => {
                lemma_find_group(probe, rs[n - 1].0);
                if gi == rest.len() {
                    assert(rs[n - 1].0 == out[gi].0);
                } else {
                    lemma_filter_by_probe_elem(rs, probe, keep, n - 1, gi);
                }
            },
        }
    }
}

/// Every position an intersection reports for a space is reported for
/// that space by both operands: the kept object itself comes from the
/// bigger side, and its position passed the probe built from the
/// smaller side.
pub proof fn lemma_intersect_membership(
    smaller: ResultSetV,
    bigger: ResultSetV,
    space: Seq<char>,
    pos: Seq<Fp>,
)
    requires
        reports_position(spec_intersect(smaller, bigger), space, pos),
    ensures
        reports_position(bigger, space, pos),
        reports_position(smaller, space, pos),
{
    let probe = spec_group(smaller);
    let out = spec_intersect(smaller, bigger);
    let gi = choose|g: int|
        0 <= g < out.len() && (#[trigger] out[g]).0 == space && has_position(out[g].1, pos);
    lemma_filter_by_probe_elem(bigger, probe, true, bigger.len() as int, gi);
    let j = find_group(probe, out[gi].0)->Some_0;
    let g0 = choose|g0: int|
        {
            &&& 0 <= g0 < bigger.len()
            &&& (#[trigger] bigger[g0]).0 == out[gi].0
            &&& out[gi].1 == crate::executors::filter_objs_by_probe(
                bigger[g0].1,
                probe[j].1,
                true,
                bigger[g0].1.len() as int,
            )
        };
    let oi = choose|o: int| 0 <= o < out[gi].1.len() && (#[trigger] out[gi].1[o]).position == pos;
    lemma_filter_objs_elem(bigger[g0].1, probe[j].1, true, bigger[g0].1.len() as int, oi);
    let idx = choose|idx: int|
        0 <= idx < bigger[g0].1.len() && #[trigger] bigger[g0].1[idx] == out[gi].1[oi];
    assert(has_position(bigger[g0].1, pos)) by {
        assert(bigger[g0].1[idx].position == pos);
    }
    assert(reports_position(bigger, space, pos));
    lemma_find_group(probe, space);
    assert(probe[j].0 == space);
    assert(has_position(probe[j].1, pos));
    assert(reports_position(probe, space, pos));
    lemma_group_reports(smaller, space, pos);
}

/// The intersection law at the executor: every position an executed
/// intersection reports for a space is reported for that space by both
/// executed operands.
pub proof fn lemma_execute_intersection_membership(
    lh: Bag,
    rh: Bag,
    core: Seq<char>,
    st: Store,
    vp: Option<(Seq<Fp>, Seq<Fp>)>,
    space: Seq<char>,
    pos: Seq<Fp>,
)
    requires
        spec_execute_bag(Bag::Intersection(Box::new(lh), Box::new(rh)), core, st, vp) is Ok,
        reports_position(
            spec_execute_bag(Bag::Intersection(Box::new(lh), Box::new(rh)), core, st, vp)->Ok_0,
            space,
            pos,
        ),
    ensures
        spec_execute_bag(lh, core, st, vp) is Ok,
        spec_execute_bag(rh, core, st, vp) is Ok,
        reports_position(spec_execute_bag(lh, core, st, vp)->Ok_0, space, pos),
        reports_position(spec_execute_bag(rh, core, st, vp)->Ok_0, space, pos),
{
    let lv = spec_execute_bag(lh, core, st, vp)->Ok_0;
    let rv = spec_execute_bag(rh, core, st, vp)->Ok_0;
    let lp = crate::predictors::spec_predict_bag(lh, st);
    let rp = crate::predictors::spec_predict_bag(rh, st);
    if crate::executors::right_is_smaller(lp, rp) {
        lemma_intersect_membership(rv, lv, space, pos);
    } else {
        lemma_intersect_membership(lv, rv, space, pos);
    }
}

/// Whether a stored object's entry lies at `idx` with the given space
/// and position.
pub open spec fn stored_at(
    objs: Seq<crate::store::StoredObject>,
    idx: int,
    space: Seq<char>,
    pos: Seq<Fp>,
) -> bool {
    &&& 0 <= idx < objs.len()
    &&& objs[idx].space@ == space
    &&& objs[idx].object.position@ == pos
}

/// Every position a shape query reports matches the shape and belongs
/// to a stored object of that space.
proof fn lemma_matching_objs_elem(
    objs: Seq<crate::store::StoredObject>,
    space: Seq<char>,
    q: crate::store::QShapeV,
    n: int,
    pos: Seq<Fp>,
)
    requires
        0 <= n <= objs.len(),
        has_position(crate::store::matching_objs_upto(objs, space, q, n), pos),
    ensures
        crate::store::shape_matches(q, pos),
        exists|idx: int| #[trigger] stored_at(objs, idx, space, pos) && idx < n,
    decreases n,
{
    let cur = crate::store::matching_objs_upto(objs, space, q, n);
    let rest = crate::store::matching_objs_upto(objs, space, q, n - 1);
    if n > 0 {
        let so = objs[n - 1];
        if so.space@ == space && crate::store::shape_matches(q, so.object.position@) && cur.last().position == pos {
            assert(cur.last() == crate::store::obj_view(so.object));
            assert(stored_at(objs, n - 1, space, pos));
        } else {
            assert(has_position(rest, pos)) by {
                let o = choose|o: int| 0 <= o < cur.len() && (#[trigger] cur[o]).position == pos;
                assert(o < rest.len());
                assert(rest[o] == cur[o]);
            }
            lemma_matching_objs_elem(objs, space, q, n - 1, pos);
        }
    }
}

/// Every stored object of the space matching the shape is reported by
/// the shape query.
proof fn lemma_matching_objs_complete(
    objs: Seq<crate::store::StoredObject>,
    space: Seq<char>,
    q: crate::store::QShapeV,
    n: int,
    idx: int,
)
    requires
        0 <= idx < n <= objs.len(),
        objs[idx].space@ == space,
        crate::store::shape_matches(q, objs[idx].object.position@),
    ensures
        has_position(crate::store::matching_objs_upto(objs, space, q, n), objs[idx].object.position@),
    decreases n,
{
    let cur = crate::store::matching_objs_upto(objs, space, q, n);
    let rest = crate::store::matching_objs_upto(objs, space, q, n - 1);
    if idx == n - 1 {
        assert(cur.last().position == objs[idx].object.position@);
    } else {
        lemma_matching_objs_complete(objs, space, q, n - 1, idx);
        let o = choose|o: int|
            0 <= o < rest.len() && (#[trigger] rest[o]).position == objs[idx].object.position@;
        if rest.len() < cur.len() {
            assert(cur[o] == rest[o]);
        } else {
            assert(cur == rest);
        }
        assert(has_position(cur, objs[idx].object.position@));
    }
}

/// Every stored object of the space at one of the listed positions is
/// reported by the position query.
proof fn lemma_matching_pos_complete(
    objs: Seq<crate::store::StoredObject>,
    space: Seq<char>,
    ps: Seq<Seq<Fp>>,
    n: int,
    idx: int,
)
    requires
        0 <= idx < n <= objs.len(),
        objs[idx].space@ == space,
        exists|j: int| 0 <= j < ps.len() && #[trigger] ps[j] == objs[idx].object.position@,
    ensures
        has_position(
            crate::store::matching_pos_upto(objs, space, ps, n),
            objs[idx].object.position@,
        ),
    decreases n,
{
    let cur = crate::store::matching_pos_upto(objs, space, ps, n);
    let rest = crate::store::matching_pos_upto(objs, space, ps, n - 1);
    if idx == n - 1 {
        assert(cur.last().position == objs[idx].object.position@);
    } else {
        lemma_matching_pos_complete(objs, space, ps, n - 1, idx);
        let o = choose|o: int|
            0 <= o < rest.len() && (#[trigger] rest[o]).position == objs[idx].object.position@;
        if rest.len() < cur.len() {
            assert(cur[o] == rest[o]);
        } else {
            assert(cur == rest);
        }
        assert(has_position(cur, objs[idx].object.position@));
    }
}

/// In grouped results, the group `find_group` lands on is the only one
/// of its space, so a reported position sits in that very group.
proof fn lemma_unique_reports(probe: ResultSetV, space: Seq<char>, pos: Seq<Fp>, j: int)
    requires
        unique_spaces(probe),
        find_group(probe, space) == Some(j),
        reports_position(probe, space, pos),
    ensures
        0 <= j < probe.len() && has_position(probe[j].1, pos),
{
    lemma_find_group(probe, space);
    let g = choose|g: int|
        0 <= g < probe.len() && (#[trigger] probe[g]).0 == space && has_position(probe[g].1, pos);
    if g != j {
        assert(probe[g].0 == probe[j].0);
        assert(false);
    }
}

/// Whether a position sits clear of the shell an inward nudge opens
/// along a shape's surface: if the shape covers it, the nudged shape
/// still does.  A point or a label has no shell; the absolute nudge can
/// misclassify positions near the surface of very large shapes, which
/// is exactly what this condition excludes.
pub open spec fn shell_ok(shape: crate::symbols::Shape, pos: Seq<Fp>) -> bool {
    match shape {
        crate::symbols::Shape::HyperRectangle(_, corners) => {
            let low = crate::executors::bits_of_lits(corners[0].0@);
            let high = crate::executors::bits_of_lits(corners[1].0@);
            crate::store::contains_box(low, high, pos) ==> crate::store::contains_box(
                crate::executors::nudge(low, true),
                crate::executors::nudge(high, false),
                pos,
            )
        },
        crate::symbols::Shape::HyperSphere(_, c, r) => {
            let center = crate::executors::bits_of_lits(c.0@);
            let rb = crate::symbols::num_bits(r);
            crate::store::contains_sphere(center, Fp(rb), pos) ==> crate::store::contains_sphere(
                center,
                Fp(crate::fp::fp_sub(rb, crate::fp::FP_EPSILON)),
                pos,
            )
        },
        _ => true,
    }
}

/// No store-held object is reported both inside and outside one shape,
/// for positions clear of the nudge's shell: what the inside query
/// covers, the nudged probe still covers, so the complement drops it.
pub proof fn lemma_inside_outside_disjoint(
    shape: crate::symbols::Shape,
    st: Store,
    pos: Seq<Fp>,
)
    requires
        spec_inside(shape, st) is Ok,
        spec_outside(shape, st) is Ok,
        shell_ok(shape, pos),
    ensures
        !(reports_position(spec_inside(shape, st)->Ok_0, crate::symbols::shape_space(shape), pos)
            && reports_position(
            spec_outside(shape, st)->Ok_0,
            crate::symbols::shape_space(shape),
            pos,
        )),
{
    let sp = crate::symbols::shape_space(shape);
    let ins = spec_inside(shape, st)->Ok_0;
    let outs = spec_outside(shape, st)->Ok_0;
    if reports_position(ins, sp, pos) && reports_position(outs, sp, pos) {
        // The probe the complement subtracts: the grouped inside set of
        // the nudged shape.
        let inner: ResultSetV = match shape {
            crate::symbols::Shape::Point(spn, p) => crate::store::spec_get_by_positions(
                st,
                seq![crate::executors::bits_of_lits(p.0@)],
                spn@,
            ),
            crate::symbols::Shape::HyperRectangle(spn, corners) => crate::store::spec_get_by_shape(
                st,
                crate::store::QShapeV::BoundingBox(
                    crate::executors::nudge(crate::executors::bits_of_lits(corners[0].0@), true),
                    crate::executors::nudge(crate::executors::bits_of_lits(corners[1].0@), false),
                ),
                spn@,
            ),
            crate::symbols::Shape::HyperSphere(spn, c, r) => crate::store::spec_get_by_shape(
                st,
                crate::store::QShapeV::HyperSphere(
                    crate::executors::bits_of_lits(c.0@),
                    crate::fp::fp_sub(crate::symbols::num_bits(r), crate::fp::FP_EPSILON),
                ),
                spn@,
            ),
            crate::symbols::Shape::Label(_, id) => crate::store::spec_get_by_label(st, id@),
            crate::symbols::Shape::Nifti(_) => Seq::empty(),
        };
        let probe = spec_group(inner);
        lemma_group_upto_unique(inner, inner.len() as int);
        // The outside result is the bounding-box scan filtered against
        // the probe with `keep == false`; pull the witness apart.
        let gi = choose|g: int|
            0 <= g < outs.len() && (#[trigger] outs[g]).0 == sp && has_position(outs[g].1, pos);
        let bbox = match crate::store::find_space(st.spaces@, sp) {
            Some(i) => crate::store::spec_get_by_shape(
                st,
                crate::store::QShapeV::BoundingBox(st.spaces@[i].low@, st.spaces@[i].high@),
                sp,
            ),
            None => Seq::empty(),
        };
        lemma_filter_by_probe_elem(bbox, probe, false, bbox.len() as int, gi);
        let j = find_group(probe, outs[gi].0)->Some_0;
        let g0 = choose|g0: int|
            {
                &&& 0 <= g0 < bbox.len()
                &&& (#[trigger] bbox[g0]).0 == outs[gi].0
                &&& outs[gi].1 == crate::executors::filter_objs_by_probe(
                    bbox[g0].1,
                    probe[j].1,
                    false,
                    bbox[g0].1.len() as int,
                )
            };
        let oi = choose|o: int|
            0 <= o < outs[gi].1.len() && (#[trigger] outs[gi].1[o]).position == pos;
        lemma_filter_objs_elem(bbox[g0].1, probe[j].1, false, bbox[g0].1.len() as int, oi);
        assert(!has_position(probe[j].1, pos));
        // The inside witness yields a stored object of the space at the
        // position, matching the shape as given; the shell condition
        // puts it in the nudged shape too, hence in the probe.
        match shape {
            crate::symbols::Shape::Point(spn, p) => {
                let q = crate::store::QShapeV::Point(crate::executors::bits_of_lits(p.0@));
                let gin = choose|g: int|
                    0 <= g < ins.len() && (#[trigger] ins[g]).0 == sp && has_position(
                        ins[g].1,
                        pos,
                    );
                lemma_matching_objs_elem(st.objects@, sp, q, st.objects@.len() as int, pos);
                let idx = choose|idx: int|
                    #[trigger] stored_at(st.objects@, idx, sp, pos) && idx < st.objects@.len();
                assert(pos == crate::executors::bits_of_lits(p.0@));
                assert(seq![crate::executors::bits_of_lits(p.0@)][0]
                    == st.objects@[idx].object.position@);
                lemma_matching_pos_complete(
                    st.objects@,
                    sp,
                    seq![crate::executors::bits_of_lits(p.0@)],
                    st.objects@.len() as int,
                    idx,
                );
                assert(reports_position(inner, sp, pos));
                lemma_group_reports(inner, sp, pos);
                lemma_unique_reports(probe, sp, pos, j);
            },
            crate::symbols::Shape::HyperRectangle(spn, corners) => {
                let low = crate::executors::bits_of_lits(corners[0].0@);
                let high = crate::executors::bits_of_lits(corners[1].0@);
                let q = crate::store::QShapeV::BoundingBox(low, high);
                lemma_matching_objs_elem(st.objects@, sp, q, st.objects@.len() as int, pos);
                let idx = choose|idx: int|
                    #[trigger] stored_at(st.objects@, idx, sp, pos) && idx < st.objects@.len();
                lemma_matching_objs_complete(
                    st.objects@,
                    sp,
                    crate::store::QShapeV::BoundingBox(
                        crate::executors::nudge(low, true),
                        crate::executors::nudge(high, false),
                    ),
                    st.objects@.len() as int,
                    idx,
                );
                assert(reports_position(inner, sp, pos));
                lemma_group_reports(inner, sp, pos);
                lemma_unique_reports(probe, sp, pos, j);
            },
            crate::symbols::Shape::HyperSphere(spn, c, r) => {
                let center = crate::executors::bits_of_lits(c.0@);
                let rb = crate::symbols::num_bits(r);
                let q = crate::store::QShapeV::HyperSphere(center, rb);
                lemma_matching_objs_elem(st.objects@, sp, q, st.objects@.len() as int, pos);
                let idx = choose|idx: int|
                    #[trigger] stored_at(st.objects@, idx, sp, pos) && idx < st.objects@.len();
                lemma_matching_objs_complete(
                    st.objects@,
                    sp,
                    crate::store::QShapeV::HyperSphere(
                        center,
                        crate::fp::fp_sub(rb, crate::fp::FP_EPSILON),
                    ),
                    st.objects@.len() as int,
                    idx,
                );
                assert(reports_position(inner, sp, pos));
                lemma_group_reports(inner, sp, pos);
                lemma_unique_reports(probe, sp, pos, j);
            },
            crate::symbols::Shape::Label(_, id) => {
                // The inside set and the probe's source are the same
                // label query.
                lemma_group_reports(inner, sp, pos);
                lemma_unique_reports(probe, sp, pos, j);
            },
            crate::symbols::Shape::Nifti(_) => {},
        }
    }
}

/// Whether every sphere of a tree has a dimension small enough for the
/// volume recurrence's climbing counter; a machine bound, nothing more.
pub open spec fn sphere_dims_ok(b: Bag) -> bool
    decreases b,
{
    match b {
        Bag::ViewPort(bag) => sphere_dims_ok(*bag),
        Bag::Distinct(bag) => sphere_dims_ok(*bag),
        Bag::Filter(_, Some(bag)) => sphere_dims_ok(*bag),
        Bag::Filter(_, None) => true,
        Bag::Complement(bag) => sphere_dims_ok(*bag),
        Bag::Intersection(lh, rh) => sphere_dims_ok(*lh) && sphere_dims_ok(*rh),
        Bag::Union(lh, rh) => sphere_dims_ok(*lh) && sphere_dims_ok(*rh),
        Bag::Bag(bags) => forall|i: int|
            0 <= i < bags@.len() ==> sphere_dims_ok(#[trigger] bags@[i]),
        Bag::Inside(shape) => shape_dims_ok(shape),
        Bag::Outside(shape) => shape_dims_ok(shape),
    }
}

/// The shape-level side of `sphere_dims_ok`.
pub open spec fn shape_dims_ok(s: crate::symbols::Shape) -> bool {
    s matches crate::symbols::Shape::HyperSphere(_, p, _) ==> p.0@.len() < usize::MAX - 2
}

/// Every bag of a list that validates as a whole validates itself.
proof fn lemma_validate_bags_each(bags: Seq<Bag>, i: int)
    requires
        crate::validators::spec_validate_bags(bags) is None,
        0 <= i < bags.len(),
    ensures
        spec_validate_bag(bags[i]) is Ok,
    decreases bags.len(),
{
    if i == bags.len() - 1 {
        assert(bags.last() == bags[i]);
    } else {
        assert(bags.drop_last()[i] == bags[i]);
        lemma_validate_bags_each(bags.drop_last(), i);
    }
}

/// A tree the validator accepts is one the predictor is defined on,
/// given the machine bound on sphere dimensions: validation has already
/// turned every unimplemented shape away and pinned every rectangle to
/// two corners of one dimension.
pub proof fn lemma_validate_implies_predictable(b: Bag)
    requires
        spec_validate_bag(b) is Ok,
        sphere_dims_ok(b),
    ensures
        crate::predictors::predict_wf(b),
    decreases b,
{
    match b {
        Bag::ViewPort(bag) => lemma_validate_implies_predictable(*bag),
        Bag::Distinct(bag) => lemma_validate_implies_predictable(*bag),
        Bag::Filter(_, Some(bag)) => lemma_validate_implies_predictable(*bag),
        Bag::Filter(_, None) => {},
        Bag::Complement(bag) => lemma_validate_implies_predictable(*bag),
        Bag::Intersection(lh, rh) => {
            lemma_validate_implies_predictable(*lh);
            lemma_validate_implies_predictable(*rh);
        },
        Bag::Union(lh, rh) => {
            lemma_validate_implies_predictable(*lh);
            lemma_validate_implies_predictable(*rh);
        },
        Bag::Bag(bags) => {
            assert forall|i: int| 0 <= i < bags@.len() implies crate::predictors::predict_wf(
                #[trigger] bags@[i],
            ) by {
                lemma_validate_bags_each(bags@, i);
                lemma_validate_implies_predictable(bags@[i]);
            }
        },
        Bag::Inside(shape) => {
            lemma_validated_shape_has_volume(shape);
        },
        Bag::Outside(shape) => {
            lemma_validated_shape_has_volume(shape);
        },
    }
}

/// A shape the validator accepts has a defined volume, given the
/// machine bound on sphere dimensions.
proof fn lemma_validated_shape_has_volume(shape: crate::symbols::Shape)
    requires
        crate::validators::spec_validate_shape(shape) is Ok,
        shape_dims_ok(shape),
    ensures
        crate::symbols::volume_wf(shape),
{
    match shape {
        crate::symbols::Shape::HyperRectangle(_, corners) => {
            let first = crate::symbols::pos_type(corners[0].0@);
            let second = crate::symbols::pos_type(corners[1].0@);
            assert(crate::types::accepts(first, second));
            assert(first->Vector_0.len() == corners[0].0@.len());
            assert(second->Vector_0.len() == corners[1].0@.len());
        },
        _ => {},
    }
}

} // verus!
