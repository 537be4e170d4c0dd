//! Resolution reaches everything: at its fixed point every included power
//! has been followed, and what a followed power redirects to is included.

use vstd::prelude::*;
use crate::grants::{
    class_archetypes, grant_pass, granted_in, group_steps, lemma_param_step_pending, others,
    param_step, power_steps, set_param, shaped, World,
};
use crate::keyed::{has_key, key_position};
use crate::load::{fixed_point, full_pass, pending};
use crate::marks::{
    category_of, lemma_mark_each_keeps_latches, lemma_mark_keeps_latches, mark_each, set_of,
    GrantDef, Marks, Names, ParamMarks,
};
use crate::monotone::{
    law_marks_only_grow, lemma_full_pass_advances, lemma_grant_pass_advances,
    lemma_group_steps_advance, lemma_mark_each_grows, lemma_param_step_advances,
    lemma_power_steps_advance, lemma_redirect_pass_advances, lemma_redirect_visit_advances,
    lemma_set_param_grows, marks_grow,
};
use crate::namekey::same_key;
use crate::resolve::{
    latch_redirects, lemma_latch_redirects_pending, redirect_pass, redirect_visit,
    redirects_due,
};
use crate::structs::ArchetypeRef;

verus! {

/// The power named `target` is included with its category and its power
/// set, each where its table has it.
pub open spec fn target_included(names: Names, m: Marks, target: Seq<char>) -> bool {
    &&& forall|p: int|
        0 <= p < m.powers.len() && same_key(names.powers[p], target) ==> (
        #[trigger] m.powers[p]).included
    &&& forall|c: int|
        0 <= c < m.cats.len() && same_key(names.cats[c], category_of(target))
            ==> #[trigger] m.cats[c]
    &&& forall|s: int|
        0 <= s < m.sets.len() && set_of(target) is Some && same_key(
            names.sets[s],
            set_of(target)->0,
        ) ==> #[trigger] m.sets[s]
}

/// Every power whose redirects are latched as followed has all that it
/// redirects to included.
pub open spec fn redirects_closed(w: World, m: Marks) -> bool {
    forall|i: int, j: int|
        0 <= i < m.powers.len() && m.powers[i].redirects_resolved && 0 <= j
            < w.powers[i].redirects.len() && (#[trigger] w.powers[i].redirects[j]) is Some
            ==> target_included(w.names, m, w.powers[i].redirects[j]->0)
}

/// The same redirects are latched in both.
pub open spec fn same_redirect_latches(a: Marks, b: Marks) -> bool {
    &&& a.powers.len() == b.powers.len()
    &&& forall|i: int|
        0 <= i < a.powers.len() ==> (#[trigger] b.powers[i]).redirects_resolved
            == a.powers[i].redirects_resolved
}

proof fn lemma_target_stays_included(names: Names, a: Marks, b: Marks, target: Seq<char>)
    requires
        marks_grow(a, b),
        target_included(names, a, target),
    ensures
        target_included(names, b, target),
{
    assert forall|p: int|
        0 <= p < b.powers.len() && same_key(names.powers[p], target) implies (
    #[trigger] b.powers[p]).included by {
        assert(a.powers[p].included);
    }
    assert forall|c: int|
        0 <= c < b.cats.len() && same_key(
            names.cats[c],
            category_of(target),
        ) implies #[trigger] b.cats[c] by {
        assert(a.cats[c]);
    }
    assert forall|s: int|
        0 <= s < b.sets.len() && set_of(target) is Some && same_key(
            names.sets[s],
            set_of(target)->0,
        ) implies #[trigger] b.sets[s] by {
        assert(a.sets[s]);
    }
}

proof fn lemma_closed_kept(w: World, a: Marks, b: Marks)
    requires
        redirects_closed(w, a),
        marks_grow(a, b),
        same_redirect_latches(a, b),
    ensures
        redirects_closed(w, b),
{
    assert forall|i: int, j: int|
        0 <= i < b.powers.len() && b.powers[i].redirects_resolved && 0 <= j
            < w.powers[i].redirects.len() && (
        #[trigger] w.powers[i].redirects[j]) is Some implies target_included(
        w.names,
        b,
        w.powers[i].redirects[j]->0,
    ) by {
        assert(a.powers[i].redirects_resolved);
        lemma_target_stays_included(w.names, a, b, w.powers[i].redirects[j]->0);
    }
}

/// Every target that was marked is included afterwards.
proof fn lemma_mark_each_includes(
    w: World,
    m: Marks,
    targets: Seq<Option<Seq<char>>>,
    inherit: Seq<ArchetypeRef>,
)
    requires
        shaped(w, m),
    ensures
        forall|j: int|
            0 <= j < targets.len() && (#[trigger] targets[j]) is Some ==> target_included(
                w.names,
                mark_each(w.names, m, targets, inherit),
                targets[j]->0,
            ),
    decreases targets.len(),
{
    if targets.len() > 0 {
        let fewer = targets.drop_last();
        lemma_mark_each_includes(w, m, fewer, inherit);
        lemma_mark_each_grows(w, m, fewer, inherit);
        let before = mark_each(w.names, m, fewer, inherit);
        let after = mark_each(w.names, m, targets, inherit);
        match targets.last() {
            Some(t) => {
                lemma_mark_keeps_latches(w.names, before, t, inherit);
                assert(marks_grow(before, after));
                assert(target_included(w.names, after, t));
            },
            None => {},
        }
        assert forall|j: int|
            0 <= j < targets.len() && (#[trigger] targets[j]) is Some implies target_included(
            w.names,
            after,
            targets[j]->0,
        ) by {
            if j < targets.len() - 1 {
                assert(fewer[j] == targets[j]);
                lemma_target_stays_included(w.names, before, after, targets[j]->0);
            }
        }
    }
}

proof fn lemma_param_step_keeps_redirect_latches(w: World, m: Marks, i: int, g: int, t: int)
    requires
        shaped(w, m),
        0 <= i < m.powers.len(),
        0 <= g < m.powers[i].params.len(),
        0 <= t < m.powers[i].params[g].len(),
    ensures
        same_redirect_latches(m, param_step(w, m, i, g, t)),
{
    let pm = m.powers[i].params[g][t];
    if !pm.resolved {
        let latched = ParamMarks { resolved: true, ..pm };
        match w.powers[i].grants[g][t] {
            GrantDef::Entity(Some(name)) => {
                if has_key(w.villain_keys, name) {
                    let v = key_position(w.villain_keys, name);
                    let refs = pm.power_refs + granted_in(w, w.villains[v]);
                    let pm2 = ParamMarks {
                        resolved: true,
                        villain_def: Some(v as usize),
                        power_refs: refs,
                    };
                    lemma_mark_each_keeps_latches(
                        w.names,
                        set_param(m, i, g, t, pm2),
                        others(refs, None),
                        class_archetypes(w.class_keys, w.villains[v]),
                    );
                }
            },
            GrantDef::Entity(None) => {},
            GrantDef::Powers(names) => {
                lemma_mark_each_keeps_latches(
                    w.names,
                    set_param(m, i, g, t, latched),
                    others(names, w.powers[i].full_name),
                    m.powers[i].archetypes,
                );
            },
            GrantDef::Nothing => {},
        }
    }
}

proof fn lemma_group_steps_keep_redirect_latches(w: World, m: Marks, i: int, g: int, t: nat)
    requires
        shaped(w, m),
        0 <= i < m.powers.len(),
        0 <= g < m.powers[i].params.len(),
        t <= m.powers[i].params[g].len(),
    ensures
        same_redirect_latches(m, group_steps(w, m, i, g, t)),
    decreases t,
{
    if t > 0 {
        lemma_group_steps_keep_redirect_latches(w, m, i, g, (t - 1) as nat);
        lemma_group_steps_advance(w, m, i, g, (t - 1) as nat);
        let before = group_steps(w, m, i, g, (t - 1) as nat);
        assert(before.powers[i].params[g].len() == m.powers[i].params[g].len());
        lemma_param_step_keeps_redirect_latches(w, before, i, g, t - 1);
    }
}

proof fn lemma_power_steps_keep_redirect_latches(w: World, m: Marks, i: int, g: nat)
    requires
        shaped(w, m),
        0 <= i < m.powers.len(),
        g <= m.powers[i].params.len(),
    ensures
        same_redirect_latches(m, power_steps(w, m, i, g)),
    decreases g,
{
    if g > 0 {
        lemma_power_steps_keep_redirect_latches(w, m, i, (g - 1) as nat);
        lemma_power_steps_advance(w, m, i, (g - 1) as nat);
        let before = power_steps(w, m, i, (g - 1) as nat);
        assert(before.powers[i].params[g - 1].len() == w.powers[i].grants[g - 1].len());
        lemma_group_steps_keep_redirect_latches(w, before, i, g - 1, w.powers[i].grants[g - 1].len());
    }
}

/// A pass over the grants latches no redirects.
pub proof fn lemma_grant_pass_keeps_redirect_latches(w: World, m: Marks, k: nat)
    requires
        shaped(w, m),
        k <= m.powers.len(),
    ensures
        same_redirect_latches(m, grant_pass(w, m, k)),
    decreases k,
{
    if k > 0 {
        lemma_grant_pass_keeps_redirect_latches(w, m, (k - 1) as nat);
        lemma_grant_pass_advances(w, m, (k - 1) as nat);
        let before = grant_pass(w, m, (k - 1) as nat);
        if before.powers[k - 1].included {
            assert(before.powers[k - 1].params.len() == w.powers[k - 1].grants.len());
            lemma_power_steps_keep_redirect_latches(w, before, k - 1, w.powers[k - 1].grants.len());
        }
    }
}

proof fn lemma_redirect_visit_keeps_closed(w: World, m: Marks, i: int)
    requires
        shaped(w, m),
        redirects_closed(w, m),
        0 <= i < m.powers.len(),
    ensures
        redirects_closed(w, redirect_visit(w.names, w.powers, m, i)),
{
    if redirects_due(m, i) {
        let targets = w.powers[i].redirects;
        let inherit = m.powers[i].archetypes;
        let marked = mark_each(w.names, m, targets, inherit);
        lemma_mark_each_grows(w, m, targets, inherit);
        lemma_mark_each_keeps_latches(w.names, m, targets, inherit);
        lemma_mark_each_includes(w, m, targets, inherit);
        lemma_closed_kept(w, m, marked);
        let end = latch_redirects(marked, i);
        assert(marks_grow(marked, end));
        assert forall|a: int, j: int|
            0 <= a < end.powers.len() && end.powers[a].redirects_resolved && 0 <= j
                < w.powers[a].redirects.len() && (
            #[trigger] w.powers[a].redirects[j]) is Some implies target_included(
            w.names,
            end,
            w.powers[a].redirects[j]->0,
        ) by {
            if a == i {
                assert(target_included(w.names, marked, targets[j]->0));
            } else {
                assert(marked.powers[a].redirects_resolved);
            }
            lemma_target_stays_included(w.names, marked, end, w.powers[a].redirects[j]->0);
        }
    }
}

proof fn lemma_redirect_pass_keeps_closed(w: World, m: Marks, k: nat)
    requires
        shaped(w, m),
        redirects_closed(w, m),
        k <= m.powers.len(),
    ensures
        redirects_closed(w, redirect_pass(w.names, w.powers, m, k)),
    decreases k,
{
    if k > 0 {
        lemma_redirect_pass_keeps_closed(w, m, (k - 1) as nat);
        lemma_redirect_pass_advances(w, m, (k - 1) as nat);
        lemma_redirect_visit_keeps_closed(w, redirect_pass(w.names, w.powers, m, (k - 1) as nat), k - 1);
    }
}

proof fn lemma_full_pass_keeps_closed(w: World, m: Marks)
    requires
        shaped(w, m),
        redirects_closed(w, m),
    ensures
        redirects_closed(w, full_pass(w, m)),
{
    lemma_grant_pass_advances(w, m, w.powers.len());
    lemma_grant_pass_keeps_redirect_latches(w, m, w.powers.len());
    let granted = grant_pass(w, m, w.powers.len());
    lemma_closed_kept(w, m, granted);
    lemma_redirect_pass_keeps_closed(w, granted, w.powers.len());
}

proof fn lemma_fixed_point_keeps_closed(w: World, m: Marks)
    requires
        shaped(w, m),
        redirects_closed(w, m),
    ensures
        redirects_closed(w, fixed_point(w, m)),
    decreases pending(m),
{
    lemma_full_pass_advances(w, m);
    lemma_full_pass_keeps_closed(w, m);
    let next = full_pass(w, m);
    if pending(next) < pending(m) {
        lemma_fixed_point_keeps_closed(w, next);
    }
}

/// A pass over the redirects that closes no latch found none to close.
proof fn lemma_idle_redirect_pass(w: World, m: Marks, k: nat)
    requires
        shaped(w, m),
        k <= m.powers.len(),
        pending(redirect_pass(w.names, w.powers, m, k)) == pending(m),
    ensures
        redirect_pass(w.names, w.powers, m, k) == m,
        forall|i: int| 0 <= i < k ==> !redirects_due(m, i),
    decreases k,
{
    if k > 0 {
        let before = redirect_pass(w.names, w.powers, m, (k - 1) as nat);
        lemma_redirect_pass_advances(w, m, (k - 1) as nat);
        lemma_redirect_visit_advances(w, before, k - 1);
        lemma_idle_redirect_pass(w, m, (k - 1) as nat);
        if redirects_due(m, k - 1) {
            let marked = mark_each(w.names, m, w.powers[k - 1].redirects, m.powers[k - 1].archetypes);
            lemma_mark_each_keeps_latches(
                w.names,
                m,
                w.powers[k - 1].redirects,
                m.powers[k - 1].archetypes,
            );
            lemma_latch_redirects_pending(marked, k - 1);
        }
    }
}

/// At the fixed point every included power has its redirects followed.
proof fn lemma_fixed_point_follows_all(w: World, m: Marks)
    requires
        shaped(w, m),
    ensures
        forall|i: int|
            0 <= i < m.powers.len() && (#[trigger] fixed_point(w, m).powers[i]).included
                ==> fixed_point(w, m).powers[i].redirects_resolved,
    decreases pending(m),
{
    lemma_full_pass_advances(w, m);
    let next = full_pass(w, m);
    if pending(next) < pending(m) {
        lemma_fixed_point_follows_all(w, next);
        assert(fixed_point(w, m) == fixed_point(w, next));
        assert(next.powers.len() == m.powers.len());
    } else {
        assert(next == m);
        assert(fixed_point(w, m) == m);
        lemma_grant_pass_advances(w, m, w.powers.len());
        let granted = grant_pass(w, m, w.powers.len());
        lemma_redirect_pass_advances(w, granted, w.powers.len());
        assert(granted == m);
        lemma_idle_redirect_pass(w, m, w.powers.len());
        assert forall|i: int|
            0 <= i < m.powers.len() && (#[trigger] m.powers[i]).included implies m.powers[i].redirects_resolved by {
            assert(!redirects_due(m, i));
        }
    }
}

/// Resolution leaves nothing out, at any distance: where every power that
/// was followed before had what it redirects to included (so, where no
/// power was followed yet), at the fixed point every power that an included
/// power redirects to is included, with its category and its power set, each
/// where its table has it. As the power reached is itself included, the same
/// holds of what it redirects to in turn.
pub proof fn law_redirects_are_followed_to_the_end(w: World, m: Marks, i: int, j: int)
    requires
        shaped(w, m),
        redirects_closed(w, m),
        0 <= i < m.powers.len(),
        fixed_point(w, m).powers[i].included,
        0 <= j < w.powers[i].redirects.len(),
        w.powers[i].redirects[j] is Some,
    ensures
        target_included(w.names, fixed_point(w, m), w.powers[i].redirects[j]->0),
{
    lemma_fixed_point_keeps_closed(w, m);
    lemma_fixed_point_follows_all(w, m);
    law_marks_only_grow(w, m);
}

/// Every effect parameter that is latched as followed has what it grants
/// included: the powers that it names, but for the power that carries it,
/// or the powers that the definition of its entity grants.
pub open spec fn grants_closed(w: World, m: Marks) -> bool {
    forall|i: int, g: int, t: int|
        0 <= i < m.powers.len() && 0 <= g < m.powers[i].params.len() && 0 <= t
            < m.powers[i].params[g].len() && (#[trigger] m.powers[i].params[g][t]).resolved
            ==> granted_included(w, m, i, g, t)
}

/// What the parameter of effect `t` of group `g` of power `i` grants is
/// included.
pub open spec fn granted_included(w: World, m: Marks, i: int, g: int, t: int) -> bool {
    match w.powers[i].grants[g][t] {
        GrantDef::Entity(Some(name)) => has_key(w.villain_keys, name) ==> forall|k: int|
            0 <= k < granted_in(w, w.villains[key_position(w.villain_keys, name)]).len()
                ==> target_included(
                w.names,
                m,
                #[trigger] granted_in(w, w.villains[key_position(w.villain_keys, name)])[k],
            ),
        GrantDef::Entity(None) => true,
        GrantDef::Powers(names) => forall|k: int|
            0 <= k < names.len() && (#[trigger] others(names, w.powers[i].full_name)[k]) is Some
                ==> target_included(w.names, m, names[k]),
        GrantDef::Nothing => true,
    }
}

/// The same parameters are latched in both, but for one.
pub open spec fn same_param_latches_but(a: Marks, b: Marks, i: int, g: int, t: int) -> bool {
    forall|x: int, y: int, z: int|
        0 <= x < a.powers.len() && 0 <= y < a.powers[x].params.len() && 0 <= z
            < a.powers[x].params[y].len() && !(x == i && y == g && z == t) ==> (
        #[trigger] b.powers[x].params[y][z]).resolved == a.powers[x].params[y][z].resolved
}

proof fn lemma_granted_stays_included(w: World, a: Marks, b: Marks, i: int, g: int, t: int)
    requires
        marks_grow(a, b),
        granted_included(w, a, i, g, t),
    ensures
        granted_included(w, b, i, g, t),
{
    match w.powers[i].grants[g][t] {
        GrantDef::Entity(Some(name)) => {
            if has_key(w.villain_keys, name) {
                let list = granted_in(w, w.villains[key_position(w.villain_keys, name)]);
                assert forall|k: int| 0 <= k < list.len() implies target_included(
                    w.names,
                    b,
                    #[trigger] list[k],
                ) by {
                    lemma_target_stays_included(w.names, a, b, list[k]);
                }
            }
        },
        GrantDef::Entity(None) => {},
        GrantDef::Powers(names) => {
            assert forall|k: int|
                0 <= k < names.len() && (#[trigger] others(
                    names,
                    w.powers[i].full_name,
                )[k]) is Some implies target_included(w.names, b, names[k]) by {
                lemma_target_stays_included(w.names, a, b, names[k]);
            }
        },
        GrantDef::Nothing => {},
    }
}

proof fn lemma_grants_closed_kept(w: World, a: Marks, b: Marks, i: int, g: int, t: int)
    requires
        grants_closed(w, a),
        marks_grow(a, b),
        same_param_latches_but(a, b, i, g, t),
        0 <= i < a.powers.len() && 0 <= g < a.powers[i].params.len() && 0 <= t
            < a.powers[i].params[g].len() && b.powers[i].params[g][t].resolved
            ==> granted_included(w, b, i, g, t),
    ensures
        grants_closed(w, b),
{
    assert forall|x: int, y: int, z: int|
        0 <= x < b.powers.len() && 0 <= y < b.powers[x].params.len() && 0 <= z
            < b.powers[x].params[y].len() && (
        #[trigger] b.powers[x].params[y][z]).resolved implies granted_included(w, b, x, y, z) by {
        assert(b.powers[x].params.len() == a.powers[x].params.len());
        assert(b.powers[x].params[y].len() == a.powers[x].params[y].len());
        if !(x == i && y == g && z == t) {
            assert(a.powers[x].params[y][z].resolved);
            lemma_granted_stays_included(w, a, b, x, y, z);
        }
    }
}

/// Visiting a parameter keeps the grants closed, and changes the latch of
/// no other parameter.
proof fn lemma_param_step_closes(w: World, m: Marks, i: int, g: int, t: int)
    requires
        shaped(w, m),
        grants_closed(w, m),
        0 <= i < m.powers.len(),
        0 <= g < m.powers[i].params.len(),
        0 <= t < m.powers[i].params[g].len(),
    ensures
        grants_closed(w, param_step(w, m, i, g, t)),
        same_param_latches_but(m, param_step(w, m, i, g, t), i, g, t),
        param_step(w, m, i, g, t).powers[i].params[g][t].resolved,
{
    let pm = m.powers[i].params[g][t];
    let end = param_step(w, m, i, g, t);
    lemma_param_step_advances(w, m, i, g, t);
    if !pm.resolved {
        let latched = ParamMarks { resolved: true, ..pm };
        match w.powers[i].grants[g][t] {
            GrantDef::Entity(Some(name)) => {
                if has_key(w.villain_keys, name) {
                    let v = key_position(w.villain_keys, name);
                    let list = granted_in(w, w.villains[v]);
                    let refs = pm.power_refs + list;
                    let pm2 = ParamMarks {
                        resolved: true,
                        villain_def: Some(v as usize),
                        power_refs: refs,
                    };
                    let mid = set_param(m, i, g, t, pm2);
                    let class = class_archetypes(w.class_keys, w.villains[v]);
                    lemma_set_param_grows(w, m, i, g, t, pm2);
                    lemma_mark_each_keeps_latches(w.names, mid, others(refs, None), class);
                    lemma_mark_each_includes(w, mid, others(refs, None), class);
                    assert forall|k: int| 0 <= k < list.len() implies target_included(
                        w.names,
                        end,
                        #[trigger] list[k],
                    ) by {
                        let at = pm.power_refs.len() + k;
                        assert(refs[at] == list[k]);
                        assert(others(refs, None)[at] == Some(list[k]));
                    }
                }
            },
            GrantDef::Entity(None) => {},
            GrantDef::Powers(names) => {
                let mid = set_param(m, i, g, t, latched);
                let to_mark = others(names, w.powers[i].full_name);
                lemma_set_param_grows(w, m, i, g, t, latched);
                lemma_mark_each_keeps_latches(w.names, mid, to_mark, m.powers[i].archetypes);
                lemma_mark_each_includes(w, mid, to_mark, m.powers[i].archetypes);
                assert forall|k: int|
                    0 <= k < names.len() && (#[trigger] to_mark[k]) is Some implies target_included(
                    w.names,
                    end,
                    names[k],
                ) by {
                    assert(to_mark[k] == Some(names[k]));
                }
            },
            GrantDef::Nothing => {},
        }
        assert(same_param_latches_but(m, end, i, g, t));
    }
    lemma_grants_closed_kept(w, m, end, i, g, t);
}

proof fn lemma_group_steps_close(w: World, m: Marks, i: int, g: int, t: nat)
    requires
        shaped(w, m),
        grants_closed(w, m),
        0 <= i < m.powers.len(),
        0 <= g < m.powers[i].params.len(),
        t <= m.powers[i].params[g].len(),
    ensures
        grants_closed(w, group_steps(w, m, i, g, t)),
    decreases t,
{
    if t > 0 {
        lemma_group_steps_close(w, m, i, g, (t - 1) as nat);
        lemma_group_steps_advance(w, m, i, g, (t - 1) as nat);
        let before = group_steps(w, m, i, g, (t - 1) as nat);
        assert(before.powers[i].params[g].len() == m.powers[i].params[g].len());
        lemma_param_step_closes(w, before, i, g, t - 1);
    }
}

proof fn lemma_power_steps_close(w: World, m: Marks, i: int, g: nat)
    requires
        shaped(w, m),
        grants_closed(w, m),
        0 <= i < m.powers.len(),
        g <= m.powers[i].params.len(),
    ensures
        grants_closed(w, power_steps(w, m, i, g)),
    decreases g,
{
    if g > 0 {
        lemma_power_steps_close(w, m, i, (g - 1) as nat);
        lemma_power_steps_advance(w, m, i, (g - 1) as nat);
        let before = power_steps(w, m, i, (g - 1) as nat);
        assert(before.powers[i].params[g - 1].len() == w.powers[i].grants[g - 1].len());
        lemma_group_steps_close(w, before, i, g - 1, w.powers[i].grants[g - 1].len());
    }
}

proof fn lemma_grant_pass_closes(w: World, m: Marks, k: nat)
    requires
        shaped(w, m),
        grants_closed(w, m),
        k <= m.powers.len(),
    ensures
        grants_closed(w, grant_pass(w, m, k)),
    decreases k,
{
    if k > 0 {
        lemma_grant_pass_closes(w, m, (k - 1) as nat);
        lemma_grant_pass_advances(w, m, (k - 1) as nat);
        let before = grant_pass(w, m, (k - 1) as nat);
        if before.powers[k - 1].included {
            assert(before.powers[k - 1].params.len() == w.powers[k - 1].grants.len());
            lemma_power_steps_close(w, before, k - 1, w.powers[k - 1].grants.len());
        }
    }
}

proof fn lemma_redirect_pass_keeps_grants_closed(w: World, m: Marks, k: nat)
    requires
        shaped(w, m),
        grants_closed(w, m),
        k <= m.powers.len(),
    ensures
        grants_closed(w, redirect_pass(w.names, w.powers, m, k)),
    decreases k,
{
    if k > 0 {
        lemma_redirect_pass_keeps_grants_closed(w, m, (k - 1) as nat);
        lemma_redirect_pass_advances(w, m, (k - 1) as nat);
        let before = redirect_pass(w.names, w.powers, m, (k - 1) as nat);
        let i = k - 1;
        lemma_redirect_visit_advances(w, before, i);
        let end = redirect_visit(w.names, w.powers, before, i);
        if redirects_due(before, i) {
            lemma_mark_each_keeps_latches(
                w.names,
                before,
                w.powers[i].redirects,
                before.powers[i].archetypes,
            );
        }
        assert(same_param_latches_but(before, end, -1, -1, -1));
        lemma_grants_closed_kept(w, before, end, -1, -1, -1);
    }
}

proof fn lemma_fixed_point_keeps_grants_closed(w: World, m: Marks)
    requires
        shaped(w, m),
        grants_closed(w, m),
    ensures
        grants_closed(w, fixed_point(w, m)),
    decreases pending(m),
{
    lemma_full_pass_advances(w, m);
    lemma_grant_pass_advances(w, m, w.powers.len());
    lemma_grant_pass_closes(w, m, w.powers.len());
    lemma_redirect_pass_keeps_grants_closed(w, grant_pass(w, m, w.powers.len()), w.powers.len());
    let next = full_pass(w, m);
    if pending(next) < pending(m) {
        lemma_fixed_point_keeps_grants_closed(w, next);
    }
}

/// Visits of the parameters of a group that close no latch found none to
/// close.
proof fn lemma_idle_group_steps(w: World, m: Marks, i: int, g: int, t: nat)
    requires
        shaped(w, m),
        0 <= i < m.powers.len(),
        0 <= g < m.powers[i].params.len(),
        t <= m.powers[i].params[g].len(),
        pending(group_steps(w, m, i, g, t)) == pending(m),
    ensures
        group_steps(w, m, i, g, t) == m,
        forall|u: int| 0 <= u < t ==> (#[trigger] m.powers[i].params[g][u]).resolved,
    decreases t,
{
    if t > 0 {
        let before = group_steps(w, m, i, g, (t - 1) as nat);
        lemma_group_steps_advance(w, m, i, g, (t - 1) as nat);
        assert(before.powers[i].params[g].len() == m.powers[i].params[g].len());
        lemma_param_step_advances(w, before, i, g, t - 1);
        lemma_idle_group_steps(w, m, i, g, (t - 1) as nat);
        lemma_param_step_pending(w, m, i, g, t - 1);
    }
}

/// Visits of the groups of a power that close no latch found none to close.
proof fn lemma_idle_power_steps(w: World, m: Marks, i: int, g: nat)
    requires
        shaped(w, m),
        0 <= i < m.powers.len(),
        g <= m.powers[i].params.len(),
        pending(power_steps(w, m, i, g)) == pending(m),
    ensures
        power_steps(w, m, i, g) == m,
        forall|h: int, u: int|
            0 <= h < g && 0 <= u < m.powers[i].params[h].len() ==> (
            #[trigger] m.powers[i].params[h][u]).resolved,
    decreases g,
{
    if g > 0 {
        let before = power_steps(w, m, i, (g - 1) as nat);
        lemma_power_steps_advance(w, m, i, (g - 1) as nat);
        assert(before.powers[i].params[g - 1].len() == w.powers[i].grants[g - 1].len());
        lemma_group_steps_advance(w, before, i, g - 1, w.powers[i].grants[g - 1].len());
        lemma_idle_power_steps(w, m, i, (g - 1) as nat);
        lemma_idle_group_steps(w, m, i, g - 1, w.powers[i].grants[g - 1].len());
    }
}

/// A pass over the grants that closes no latch found none to close.
proof fn lemma_idle_grant_pass(w: World, m: Marks, k: nat)
    requires
        shaped(w, m),
        k <= m.powers.len(),
        pending(grant_pass(w, m, k)) == pending(m),
    ensures
        grant_pass(w, m, k) == m,
        forall|i: int, h: int, u: int|
            0 <= i < k && m.powers[i].included && 0 <= h < m.powers[i].params.len() && 0 <= u
                < m.powers[i].params[h].len() ==> (#[trigger] m.powers[i].params[h][u]).resolved,
    decreases k,
{
    if k > 0 {
        let before = grant_pass(w, m, (k - 1) as nat);
        lemma_grant_pass_advances(w, m, (k - 1) as nat);
        if before.powers[k - 1].included {
            assert(before.powers[k - 1].params.len() == w.powers[k - 1].grants.len());
            lemma_power_steps_advance(w, before, k - 1, w.powers[k - 1].grants.len());
        }
        lemma_idle_grant_pass(w, m, (k - 1) as nat);
        if m.powers[k - 1].included {
            lemma_idle_power_steps(w, m, k - 1, w.powers[k - 1].grants.len());
        }
    }
}

/// At the fixed point every parameter of every included power has been
/// followed.
proof fn lemma_fixed_point_follows_all_grants(w: World, m: Marks)
    requires
        shaped(w, m),
    ensures
        forall|i: int, h: int, u: int|
            0 <= i < m.powers.len() && fixed_point(w, m).powers[i].included && 0 <= h
                < fixed_point(w, m).powers[i].params.len() && 0 <= u < fixed_point(
                w,
                m,
            ).powers[i].params[h].len() ==> (#[trigger] fixed_point(
                w,
                m,
            ).powers[i].params[h][u]).resolved,
    decreases pending(m),
{
    lemma_full_pass_advances(w, m);
    let next = full_pass(w, m);
    if pending(next) < pending(m) {
        lemma_fixed_point_follows_all_grants(w, next);
        assert(fixed_point(w, m) == fixed_point(w, next));
        assert(next.powers.len() == m.powers.len());
    } else {
        assert(next == m);
        assert(fixed_point(w, m) == m);
        lemma_grant_pass_advances(w, m, w.powers.len());
        let granted = grant_pass(w, m, w.powers.len());
        lemma_redirect_pass_advances(w, granted, w.powers.len());
        lemma_idle_grant_pass(w, m, w.powers.len());
    }
}

/// Resolution leaves no grant out: where every parameter that was followed
/// before had what it grants included (so, where no parameter was followed
/// yet), at the fixed point every included power has what each of its
/// effect parameters grants included: the powers that the parameter names,
/// but for the power itself, or the powers that the definition of its
/// entity grants, each with its category and its power set, each where its
/// table has it.
pub proof fn law_grants_are_followed_to_the_end(w: World, m: Marks, i: int, g: int, t: int)
    requires
        shaped(w, m),
        grants_closed(w, m),
        0 <= i < m.powers.len(),
        fixed_point(w, m).powers[i].included,
        0 <= g < w.powers[i].grants.len(),
        0 <= t < w.powers[i].grants[g].len(),
    ensures
        granted_included(w, fixed_point(w, m), i, g, t),
{
    lemma_fixed_point_keeps_grants_closed(w, m);
    lemma_fixed_point_follows_all_grants(w, m);
    law_marks_only_grow(w, m);
    let f = fixed_point(w, m);
    assert(f.powers[i].params.len() == w.powers[i].grants.len());
    assert(f.powers[i].params[g].len() == w.powers[i].grants[g].len());
    assert(f.powers[i].params[g][t].resolved);
}

} // verus!
