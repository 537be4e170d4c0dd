//! Resolution includes nothing without a reason: what is included at the
//! end was included at the start, or is named by a power that is included.

use vstd::prelude::*;
use crate::grants::{
    class_archetypes, grant_pass, granted_in, group_steps, others, param_step, power_steps,
    set_param, shaped, World,
};
use crate::keyed::{has_key, key_position};
use crate::load::{fixed_point, full_pass, pending};
use crate::marks::{
    category_of, lemma_mark_keeps_latches, mark, mark_each, set_of, GrantDef, Marks, ParamMarks,
};
use crate::monotone::{
    lemma_full_pass_advances, lemma_mark_each_grows, lemma_redirect_visit_advances,
    lemma_set_param_grows, marks_grow,
};
use crate::namekey::same_key;
use crate::resolve::{latch_redirects, redirect_pass, redirect_visit, redirects_due};
use crate::structs::ArchetypeRef;

verus! {

/// Redirect `j` of power `i` names the text.
pub open spec fn redirect_names(w: World, i: int, j: int, t: Seq<char>) -> bool {
    0 <= j < w.powers[i].redirects.len() && w.powers[i].redirects[j] == Some(t)
}

/// The parameter of effect `u` of group `g` of power `i` names the text, at
/// place `k` of its list: of the powers that it names, but for the power
/// itself, or of the powers that its entity is granted.
pub open spec fn grant_names(
    w: World,
    m: Marks,
    i: int,
    g: int,
    u: int,
    k: int,
    t: Seq<char>,
) -> bool {
    &&& 0 <= g < w.powers[i].grants.len()
    &&& 0 <= u < w.powers[i].grants[g].len()
    &&& match w.powers[i].grants[g][u] {
        GrantDef::Powers(names) => 0 <= k < names.len() && others(names, w.powers[i].full_name)[k]
            == Some(t),
        GrantDef::Entity(_) => 0 <= k < m.powers[i].params[g][u].power_refs.len()
            && m.powers[i].params[g][u].power_refs[k] == t,
        GrantDef::Nothing => false,
    }
}

/// Power `i` names the text, by a redirect or by what one of its effect
/// parameters grants.
pub open spec fn names_target(w: World, m: Marks, i: int, t: Seq<char>) -> bool {
    ||| exists|j: int| #[trigger] redirect_names(w, i, j, t)
    ||| exists|g: int, u: int, k: int| #[trigger] grant_names(w, m, i, g, u, k, t)
}

/// An included power names the text.
pub open spec fn has_reason(w: World, m: Marks, t: Seq<char>) -> bool {
    exists|i: int| 0 <= i < m.powers.len() && m.powers[i].included && #[trigger] names_target(w, m, i, t)
}

/// The power at a position is named by an included power.
pub open spec fn power_has_reason(w: World, m: Marks, p: int) -> bool {
    exists|t: Seq<char>| same_key(w.names.powers[p], t) && #[trigger] has_reason(w, m, t)
}

/// The category at a position is that of a power that an included power
/// names.
pub open spec fn cat_has_reason(w: World, m: Marks, c: int) -> bool {
    exists|t: Seq<char>| same_key(w.names.cats[c], category_of(t)) && #[trigger] has_reason(w, m, t)
}

/// The power set at a position is that of a power that an included power
/// names.
pub open spec fn set_has_reason(w: World, m: Marks, s: int) -> bool {
    exists|t: Seq<char>|
        set_of(t) is Some && same_key(w.names.sets[s], set_of(t)->0) && #[trigger] has_reason(w, m, t)
}

/// Everything that is included in `b` was included in `a` or has a reason
/// in `b`.
pub open spec fn reached(w: World, a: Marks, b: Marks) -> bool {
    &&& forall|p: int|
        0 <= p < b.powers.len() && (#[trigger] b.powers[p]).included ==> a.powers[p].included
            || power_has_reason(w, b, p)
    &&& forall|c: int|
        0 <= c < b.cats.len() && #[trigger] b.cats[c] ==> a.cats[c] || cat_has_reason(w, b, c)
    &&& forall|s: int|
        0 <= s < b.sets.len() && #[trigger] b.sets[s] ==> a.sets[s] || set_has_reason(w, b, s)
}

/// The lists of granted powers of `b` begin with those of `a`.
pub open spec fn refs_grow(a: Marks, b: Marks) -> bool {
    forall|i: int, g: int, u: int|
        0 <= i < a.powers.len() && 0 <= g < a.powers[i].params.len() && 0 <= u
            < a.powers[i].params[g].len() ==> {
            let was = a.powers[i].params[g][u].power_refs;
            let is = (#[trigger] b.powers[i].params[g][u]).power_refs;
            is.len() >= was.len() && is.take(was.len() as int) == was
        }
}

/// The marks `b` follow from the marks `a`: they have all that `a` has, and
/// what they have more has a reason.
pub open spec fn follows(w: World, a: Marks, b: Marks) -> bool {
    &&& shaped(w, a)
    &&& shaped(w, b)
    &&& marks_grow(a, b)
    &&& refs_grow(a, b)
    &&& reached(w, a, b)
}

proof fn lemma_names_target_stays(w: World, a: Marks, b: Marks, i: int, t: Seq<char>)
    requires
        shaped(w, a),
        refs_grow(a, b),
        0 <= i < a.powers.len(),
        names_target(w, a, i, t),
    ensures
        names_target(w, b, i, t),
{
    if exists|j: int| #[trigger] redirect_names(w, i, j, t) {
    } else {
        let (g, u, k) = choose|g: int, u: int, k: int| #[trigger] grant_names(w, a, i, g, u, k, t);
        assert(a.powers[i].params.len() == w.powers[i].grants.len());
        assert(a.powers[i].params[g].len() == w.powers[i].grants[g].len());
        let was = a.powers[i].params[g][u].power_refs;
        let is = b.powers[i].params[g][u].power_refs;
        assert(is.len() >= was.len() && is.take(was.len() as int) == was);
        match w.powers[i].grants[g][u] {
            GrantDef::Entity(_) => {
                assert(is.take(was.len() as int)[k] == was[k]);
            },
            _ => {},
        }
        assert(grant_names(w, b, i, g, u, k, t));
    }
}

proof fn lemma_reason_stays(w: World, a: Marks, b: Marks, t: Seq<char>)
    requires
        shaped(w, a),
        marks_grow(a, b),
        refs_grow(a, b),
        has_reason(w, a, t),
    ensures
        has_reason(w, b, t),
{
    let i = choose|i: int|
        0 <= i < a.powers.len() && a.powers[i].included && #[trigger] names_target(w, a, i, t);
    lemma_names_target_stays(w, a, b, i, t);
    assert(b.powers[i].included);
}

proof fn lemma_refs_grow_chain(a: Marks, b: Marks, c: Marks)
    requires
        marks_grow(a, b),
        refs_grow(a, b),
        refs_grow(b, c),
    ensures
        refs_grow(a, c),
{
    assert forall|i: int, g: int, u: int|
        0 <= i < a.powers.len() && 0 <= g < a.powers[i].params.len() && 0 <= u
            < a.powers[i].params[g].len() implies {
        let was = a.powers[i].params[g][u].power_refs;
        let is = (#[trigger] c.powers[i].params[g][u]).power_refs;
        is.len() >= was.len() && is.take(was.len() as int) == was
    } by {
        assert(b.powers[i].params.len() == a.powers[i].params.len());
        assert(b.powers[i].params[g].len() == a.powers[i].params[g].len());
        let was = a.powers[i].params[g][u].power_refs;
        let mid = b.powers[i].params[g][u].power_refs;
        let is = c.powers[i].params[g][u].power_refs;
        assert(mid.take(was.len() as int) == was);
        assert(is.take(mid.len() as int) == mid);
        assert(is.take(was.len() as int) =~= is.take(mid.len() as int).take(was.len() as int));
    }
}

/// What follows from marks that follow, follows.
proof fn lemma_follows_chain(w: World, a: Marks, b: Marks, c: Marks)
    requires
        follows(w, a, b),
        follows(w, b, c),
    ensures
        follows(w, a, c),
{
    crate::monotone::lemma_grow_chain(a, b, c);
    lemma_refs_grow_chain(a, b, c);
    assert forall|p: int| 0 <= p < c.powers.len() && (#[trigger] c.powers[p]).included implies (
    a.powers[p].included || power_has_reason(w, c, p)) by {
        if !power_has_reason(w, c, p) {
            assert(b.powers[p].included);
            if !a.powers[p].included {
                let t = choose|t: Seq<char>|
                    same_key(w.names.powers[p], t) && #[trigger] has_reason(w, b, t);
                lemma_reason_stays(w, b, c, t);
            }
        }
    }
    assert forall|k: int| 0 <= k < c.cats.len() && #[trigger] c.cats[k] implies (a.cats[k]
        || cat_has_reason(w, c, k)) by {
        if !cat_has_reason(w, c, k) {
            assert(b.cats[k]);
            if !a.cats[k] {
                let t = choose|t: Seq<char>|
                    same_key(w.names.cats[k], category_of(t)) && #[trigger] has_reason(w, b, t);
                lemma_reason_stays(w, b, c, t);
            }
        }
    }
    assert forall|s: int| 0 <= s < c.sets.len() && #[trigger] c.sets[s] implies (a.sets[s]
        || set_has_reason(w, c, s)) by {
        if !set_has_reason(w, c, s) {
            assert(b.sets[s]);
            if !a.sets[s] {
                let t = choose|t: Seq<char>|
                    set_of(t) is Some && same_key(w.names.sets[s], set_of(t)->0)
                        && #[trigger] has_reason(w, b, t);
                lemma_reason_stays(w, b, c, t);
            }
        }
    }
}

proof fn lemma_follows_same(w: World, m: Marks)
    requires
        shaped(w, m),
    ensures
        follows(w, m, m),
{
    assert forall|i: int, g: int, u: int|
        0 <= i < m.powers.len() && 0 <= g < m.powers[i].params.len() && 0 <= u
            < m.powers[i].params[g].len() implies {
        let was = m.powers[i].params[g][u].power_refs;
        let is = (#[trigger] m.powers[i].params[g][u]).power_refs;
        is.len() >= was.len() && is.take(was.len() as int) == was
    } by {
        let was = m.powers[i].params[g][u].power_refs;
        assert(was.take(was.len() as int) =~= was);
    }
}

/// Marks that differ in nothing but what is included have the same lists
/// of granted powers.
proof fn lemma_same_params_refs_grow(a: Marks, b: Marks)
    requires
        a.powers.len() == b.powers.len(),
        forall|i: int| 0 <= i < a.powers.len() ==> (#[trigger] b.powers[i]).params == a.powers[i].params,
    ensures
        refs_grow(a, b),
{
    assert forall|i: int, g: int, u: int|
        0 <= i < a.powers.len() && 0 <= g < a.powers[i].params.len() && 0 <= u
            < a.powers[i].params[g].len() implies {
        let was = a.powers[i].params[g][u].power_refs;
        let is = (#[trigger] b.powers[i].params[g][u]).power_refs;
        is.len() >= was.len() && is.take(was.len() as int) == was
    } by {
        assert(b.powers[i].params == a.powers[i].params);
        let was = a.powers[i].params[g][u].power_refs;
        assert(was.take(was.len() as int) =~= was);
    }
}

/// Marking a power that an included power names adds nothing without a
/// reason.
proof fn lemma_mark_follows(w: World, m: Marks, i: int, t: Seq<char>, inherit: Seq<ArchetypeRef>)
    requires
        shaped(w, m),
        0 <= i < m.powers.len(),
        m.powers[i].included,
        names_target(w, m, i, t),
    ensures
        follows(w, m, mark(w.names, m, t, inherit)),
{
    let end = mark(w.names, m, t, inherit);
    let one = seq![Some(t)];
    lemma_mark_each_grows(w, m, one, inherit);
    assert(one.drop_last() =~= Seq::<Option<Seq<char>>>::empty());
    assert(one.last() == Some(t));
    assert(mark_each(w.names, m, one.drop_last(), inherit) == m);
    assert(mark_each(w.names, m, one, inherit) == end);
    lemma_mark_keeps_latches(w.names, m, t, inherit);
    lemma_same_params_refs_grow(m, end);
    lemma_names_target_stays(w, m, end, i, t);
    assert(end.powers[i].included);
    assert(has_reason(w, end, t));
}

/// Marking powers that an included power names adds nothing without a
/// reason.
proof fn lemma_mark_each_follows(
    w: World,
    m: Marks,
    i: int,
    targets: Seq<Option<Seq<char>>>,
    inherit: Seq<ArchetypeRef>,
)
    requires
        shaped(w, m),
        0 <= i < m.powers.len(),
        m.powers[i].included,
        forall|k: int|
            0 <= k < targets.len() && (#[trigger] targets[k]) is Some ==> names_target(
                w,
                m,
                i,
                targets[k]->0,
            ),
    ensures
        follows(w, m, mark_each(w.names, m, targets, inherit)),
    decreases targets.len(),
{
    if targets.len() == 0 {
        lemma_follows_same(w, m);
    } else {
        let fewer = targets.drop_last();
        assert forall|k: int| 0 <= k < fewer.len() && (#[trigger] fewer[k]) is Some implies names_target(
            w,
            m,
            i,
            fewer[k]->0,
        ) by {
            assert(fewer[k] == targets[k]);
        }
        lemma_mark_each_follows(w, m, i, fewer, inherit);
        let before = mark_each(w.names, m, fewer, inherit);
        match targets.last() {
            Some(t) => {
                assert(targets[targets.len() - 1] == Some(t));
                lemma_names_target_stays(w, m, before, i, t);
                assert(before.powers[i].included);
                lemma_mark_follows(w, before, i, t, inherit);
                lemma_follows_chain(w, m, before, mark(w.names, before, t, inherit));
            },
            None => {},
        }
    }
}

/// Replacing the marks of a parameter by marks whose list of granted
/// powers begins with the list that was there adds nothing without a
/// reason.
proof fn lemma_set_param_follows(w: World, m: Marks, i: int, g: int, u: int, pm: ParamMarks)
    requires
        shaped(w, m),
        0 <= i < m.powers.len(),
        0 <= g < m.powers[i].params.len(),
        0 <= u < m.powers[i].params[g].len(),
        pm.resolved,
        pm.power_refs.len() >= m.powers[i].params[g][u].power_refs.len(),
        pm.power_refs.take(m.powers[i].params[g][u].power_refs.len() as int)
            == m.powers[i].params[g][u].power_refs,
    ensures
        follows(w, m, set_param(m, i, g, u, pm)),
{
    let end = set_param(m, i, g, u, pm);
    lemma_set_param_grows(w, m, i, g, u, pm);
    assert forall|x: int, y: int, z: int|
        0 <= x < m.powers.len() && 0 <= y < m.powers[x].params.len() && 0 <= z
            < m.powers[x].params[y].len() implies {
        let was = m.powers[x].params[y][z].power_refs;
        let is = (#[trigger] end.powers[x].params[y][z]).power_refs;
        is.len() >= was.len() && is.take(was.len() as int) == was
    } by {
        let was = m.powers[x].params[y][z].power_refs;
        if !(x == i && y == g && z == u) {
            assert(end.powers[x].params[y][z] == m.powers[x].params[y][z]);
            assert(was.take(was.len() as int) =~= was);
        }
    }
}

/// Visiting a parameter of an included power adds nothing without a reason.
proof fn lemma_param_step_follows(w: World, m: Marks, i: int, g: int, u: int)
    requires
        shaped(w, m),
        0 <= i < m.powers.len(),
        m.powers[i].included,
        0 <= g < m.powers[i].params.len(),
        0 <= u < m.powers[i].params[g].len(),
    ensures
        follows(w, m, param_step(w, m, i, g, u)),
{
    let pm = m.powers[i].params[g][u];
    let end = param_step(w, m, i, g, u);
    if pm.resolved {
        lemma_follows_same(w, m);
    } else {
        let latched = ParamMarks { resolved: true, ..pm };
        assert(pm.power_refs.take(pm.power_refs.len() as int) =~= pm.power_refs);
        match w.powers[i].grants[g][u] {
            GrantDef::Entity(Some(name)) => {
                if has_key(w.villain_keys, name) {
                    let v = key_position(w.villain_keys, name);
                    let refs = pm.power_refs + granted_in(w, w.villains[v]);
                    let pm2 = ParamMarks {
                        resolved: true,
                        villain_def: Some(v as usize),
                        power_refs: refs,
                    };
                    assert(refs.take(pm.power_refs.len() as int) =~= pm.power_refs);
                    lemma_set_param_follows(w, m, i, g, u, pm2);
                    let mid = set_param(m, i, g, u, pm2);
                    let to_mark = others(refs, None);
                    assert forall|k: int|
                        0 <= k < to_mark.len() && (#[trigger] to_mark[k]) is Some implies names_target(
                        w,
                        mid,
                        i,
                        to_mark[k]->0,
                    ) by {
                        assert(grant_names(w, mid, i, g, u, k, refs[k]));
                    }
                    lemma_mark_each_follows(
                        w,
                        mid,
                        i,
                        to_mark,
                        class_archetypes(w.class_keys, w.villains[v]),
                    );
                    lemma_follows_chain(w, m, mid, end);
                } else {
                    lemma_set_param_follows(w, m, i, g, u, latched);
                }
            },
            GrantDef::Entity(None) => {
                lemma_set_param_follows(w, m, i, g, u, latched);
            },
            GrantDef::Powers(names) => {
                lemma_set_param_follows(w, m, i, g, u, latched);
                let mid = set_param(m, i, g, u, latched);
                let to_mark = others(names, w.powers[i].full_name);
                assert forall|k: int|
                    0 <= k < to_mark.len() && (#[trigger] to_mark[k]) is Some implies names_target(
                    w,
                    mid,
                    i,
                    to_mark[k]->0,
                ) by {
                    assert(grant_names(w, mid, i, g, u, k, to_mark[k]->0));
                }
                lemma_mark_each_follows(w, mid, i, to_mark, m.powers[i].archetypes);
                lemma_follows_chain(w, m, mid, end);
            },
            GrantDef::Nothing => {
                lemma_set_param_follows(w, m, i, g, u, latched);
            },
        }
    }
}

proof fn lemma_group_steps_follow(w: World, m: Marks, i: int, g: int, u: nat)
    requires
        shaped(w, m),
        0 <= i < m.powers.len(),
        m.powers[i].included,
        0 <= g < m.powers[i].params.len(),
        u <= m.powers[i].params[g].len(),
    ensures
        follows(w, m, group_steps(w, m, i, g, u)),
    decreases u,
{
    if u == 0 {
        lemma_follows_same(w, m);
    } else {
        lemma_group_steps_follow(w, m, i, g, (u - 1) as nat);
        let before = group_steps(w, m, i, g, (u - 1) as nat);
        assert(before.powers[i].params[g].len() == m.powers[i].params[g].len());
        assert(before.powers[i].included);
        lemma_param_step_follows(w, before, i, g, u - 1);
        lemma_follows_chain(w, m, before, group_steps(w, m, i, g, u));
    }
}

proof fn lemma_power_steps_follow(w: World, m: Marks, i: int, g: nat)
    requires
        shaped(w, m),
        0 <= i < m.powers.len(),
        m.powers[i].included,
        g <= m.powers[i].params.len(),
    ensures
        follows(w, m, power_steps(w, m, i, g)),
    decreases g,
{
    if g == 0 {
        lemma_follows_same(w, m);
    } else {
        lemma_power_steps_follow(w, m, i, (g - 1) as nat);
        let before = power_steps(w, m, i, (g - 1) as nat);
        assert(before.powers[i].params[g - 1].len() == w.powers[i].grants[g - 1].len());
        assert(before.powers[i].included);
        lemma_group_steps_follow(w, before, i, g - 1, w.powers[i].grants[g - 1].len());
        lemma_follows_chain(w, m, before, power_steps(w, m, i, g));
    }
}

proof fn lemma_grant_pass_follows(w: World, m: Marks, k: nat)
    requires
        shaped(w, m),
        k <= m.powers.len(),
    ensures
        follows(w, m, grant_pass(w, m, k)),
    decreases k,
{
    if k == 0 {
        lemma_follows_same(w, m);
    } else {
        lemma_grant_pass_follows(w, m, (k - 1) as nat);
        let before = grant_pass(w, m, (k - 1) as nat);
        if before.powers[k - 1].included {
            assert(before.powers[k - 1].params.len() == w.powers[k - 1].grants.len());
            lemma_power_steps_follow(w, before, k - 1, w.powers[k - 1].grants.len());
        } else {
            lemma_follows_same(w, before);
        }
        lemma_follows_chain(w, m, before, grant_pass(w, m, k));
    }
}

proof fn lemma_redirect_visit_follows(w: World, m: Marks, i: int)
    requires
        shaped(w, m),
        0 <= i < m.powers.len(),
    ensures
        follows(w, m, redirect_visit(w.names, w.powers, m, i)),
{
    if redirects_due(m, i) {
        let targets = w.powers[i].redirects;
        let inherit = m.powers[i].archetypes;
        assert forall|k: int| 0 <= k < targets.len() && (#[trigger] targets[k]) is Some implies names_target(
            w,
            m,
            i,
            targets[k]->0,
        ) by {
            assert(redirect_names(w, i, k, targets[k]->0));
        }
        lemma_mark_each_follows(w, m, i, targets, inherit);
        let marked = mark_each(w.names, m, targets, inherit);
        let end = latch_redirects(marked, i);
        lemma_redirect_visit_advances(w, m, i);
        assert(marks_grow(marked, end));
        assert forall|x: int| 0 <= x < marked.powers.len() implies (#[trigger] end.powers[x]).params
            == marked.powers[x].params by {}
        lemma_same_params_refs_grow(marked, end);
        assert forall|p: int|
            0 <= p < end.powers.len() && (#[trigger] end.powers[p]).included implies (
        marked.powers[p].included || power_has_reason(w, end, p)) by {}
        assert(reached(w, marked, end));
        lemma_follows_chain(w, m, marked, end);
    } else {
        lemma_follows_same(w, m);
    }
}

proof fn lemma_redirect_pass_follows(w: World, m: Marks, k: nat)
    requires
        shaped(w, m),
        k <= m.powers.len(),
    ensures
        follows(w, m, redirect_pass(w.names, w.powers, m, k)),
    decreases k,
{
    if k == 0 {
        lemma_follows_same(w, m);
    } else {
        lemma_redirect_pass_follows(w, m, (k - 1) as nat);
        let before = redirect_pass(w.names, w.powers, m, (k - 1) as nat);
        lemma_redirect_visit_follows(w, before, k - 1);
        lemma_follows_chain(w, m, before, redirect_pass(w.names, w.powers, m, k));
    }
}

proof fn lemma_fixed_point_follows(w: World, m: Marks)
    requires
        shaped(w, m),
    ensures
        follows(w, m, fixed_point(w, m)),
    decreases pending(m),
{
    lemma_full_pass_advances(w, m);
    lemma_grant_pass_follows(w, m, w.powers.len());
    let granted = grant_pass(w, m, w.powers.len());
    lemma_redirect_pass_follows(w, granted, w.powers.len());
    let next = full_pass(w, m);
    lemma_follows_chain(w, m, granted, next);
    if pending(next) < pending(m) {
        lemma_fixed_point_follows(w, next);
        lemma_follows_chain(w, m, next, fixed_point(w, next));
    }
}

/// Resolution includes nothing without a reason: a power that is included
/// at the fixed point was included before, or an included power names it,
/// by a redirect or by what one of its effect parameters grants; and a
/// category or a power set that is included was included before, or is
/// that of a power which an included power names. With what
/// stands in [`crate::closure`], the powers that are included at the fixed
/// point are exactly those that are reached from the powers that were
/// included.
pub proof fn law_nothing_is_included_without_reason(w: World, m: Marks)
    requires
        shaped(w, m),
    ensures
        reached(w, m, fixed_point(w, m)),
{
    lemma_fixed_point_follows(w, m);
}

} // verus!
