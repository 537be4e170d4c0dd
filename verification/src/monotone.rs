//! Resolution only adds: what is included stays included, and a latch that
//! is closed stays closed.

use vstd::prelude::*;
use crate::grants::{
    class_archetypes, grant_pass, granted_in, group_steps, lemma_param_step_pending, others,
    param_step, power_steps, set_param, shaped, World,
};
use crate::keyed::{has_key, key_position};
use crate::load::{fixed_point, full_pass, pending};
use crate::marks::{
    lemma_mark_each_keeps_latches, lemma_mark_keeps_latches, mark, mark_each, pending_params,
    pending_redirects, GrantDef, Marks, Names, ParamMarks, PowerDef,
};
use crate::resolve::{
    latch_redirects, lemma_latch_redirects_pending, redirect_pass, redirect_visit,
    redirects_due,
};
use crate::structs::ArchetypeRef;

verus! {

/// The marks `b` have all that the marks `a` have: every record that was
/// included is included, and every latch that was closed is closed.
pub open spec fn marks_grow(a: Marks, b: Marks) -> bool {
    &&& b.cats.len() == a.cats.len()
    &&& b.sets.len() == a.sets.len()
    &&& b.powers.len() == a.powers.len()
    &&& forall|c: int| 0 <= c < a.cats.len() && a.cats[c] ==> #[trigger] b.cats[c]
    &&& forall|s: int| 0 <= s < a.sets.len() && a.sets[s] ==> #[trigger] b.sets[s]
    &&& forall|p: int|
        0 <= p < a.powers.len() ==> {
            let was = a.powers[p];
            let is = #[trigger] b.powers[p];
            &&& was.included ==> is.included
            &&& was.redirects_resolved ==> is.redirects_resolved
            &&& is.params.len() == was.params.len()
            &&& forall|g: int|
                0 <= g < was.params.len() ==> (#[trigger] is.params[g]).len() == was.params[g].len()
            &&& forall|g: int, t: int|
                0 <= g < was.params.len() && 0 <= t < was.params[g].len() && was.params[g][t].resolved
                    ==> (#[trigger] is.params[g][t]).resolved
        }
}

/// The marks after a step either are those before it, or have fewer open
/// latches; and they have all that the marks before it have.
pub open spec fn advances(w: World, a: Marks, b: Marks) -> bool {
    &&& shaped(w, b)
    &&& marks_grow(a, b)
    &&& pending(b) <= pending(a)
    &&& (b == a || pending(b) < pending(a))
}

/// Steps that advance the marks do so together.
pub proof fn lemma_advances_chain(w: World, a: Marks, b: Marks, c: Marks)
    requires
        advances(w, a, b),
        advances(w, b, c),
    ensures
        advances(w, a, c),
{
    assert forall|p: int| 0 <= p < a.powers.len() implies {
        let was = a.powers[p];
        let is = #[trigger] c.powers[p];
        &&& was.included ==> is.included
        &&& was.redirects_resolved ==> is.redirects_resolved
        &&& is.params.len() == was.params.len()
        &&& forall|g: int|
            0 <= g < was.params.len() ==> (#[trigger] is.params[g]).len() == was.params[g].len()
        &&& forall|g: int, t: int|
            0 <= g < was.params.len() && 0 <= t < was.params[g].len() && was.params[g][t].resolved
                ==> (#[trigger] is.params[g][t]).resolved
    } by {
        let mid = b.powers[p];
        let was = a.powers[p];
        let is = c.powers[p];
        assert forall|g: int| 0 <= g < was.params.len() implies (#[trigger] is.params[g]).len()
            == was.params[g].len() by {
            assert(mid.params[g].len() == was.params[g].len());
        }
        assert forall|g: int, t: int|
            0 <= g < was.params.len() && 0 <= t < was.params[g].len()
                && was.params[g][t].resolved implies (#[trigger] is.params[g][t]).resolved by {
            assert(mid.params[g].len() == was.params[g].len());
            assert(mid.params[g][t].resolved);
        }
    }
    assert forall|k: int| 0 <= k < a.cats.len() && a.cats[k] implies #[trigger] c.cats[k] by {
        assert(b.cats[k]);
    }
    assert forall|k: int| 0 <= k < a.sets.len() && a.sets[k] implies #[trigger] c.sets[k] by {
        assert(b.sets[k]);
    }
}

/// Marking powers leaves the latches as they are and takes nothing away.
pub proof fn lemma_mark_each_grows(
    w: World,
    m: Marks,
    targets: Seq<Option<Seq<char>>>,
    inherit: Seq<ArchetypeRef>,
)
    requires
        shaped(w, m),
    ensures
        shaped(w, mark_each(w.names, m, targets, inherit)),
        marks_grow(m, mark_each(w.names, m, targets, inherit)),
        pending_params(mark_each(w.names, m, targets, inherit)) == pending_params(m),
        pending_redirects(mark_each(w.names, m, targets, inherit)) == pending_redirects(m),
    decreases targets.len(),
{
    lemma_mark_each_keeps_latches(w.names, m, targets, inherit);
    if targets.len() > 0 {
        lemma_mark_each_grows(w, m, targets.drop_last(), inherit);
        let before = mark_each(w.names, m, targets.drop_last(), inherit);
        match targets.last() {
            Some(t) => {
                lemma_mark_keeps_latches(w.names, before, t, inherit);
                let after = mark(w.names, before, t, inherit);
                assert(marks_grow(before, after));
                assert(marks_grow(m, after)) by {
                    assert forall|c: int| 0 <= c < m.cats.len() && m.cats[c] implies #[trigger] after.cats[c] by {
                        assert(before.cats[c]);
                    }
                    assert forall|s: int| 0 <= s < m.sets.len() && m.sets[s] implies #[trigger] after.sets[s] by {
                        assert(before.sets[s]);
                    }
                }
            },
            None => {},
        }
    }
    let r = mark_each(w.names, m, targets, inherit);
    assert forall|i: int, g: int|
        0 <= i < r.powers.len() && 0 <= g < r.powers[i].params.len() implies (
    #[trigger] r.powers[i].params[g]).len() == w.powers[i].grants[g].len() by {
        assert(r.powers[i].params == m.powers[i].params);
    }
}

/// Replacing the marks of a parameter by marks that are resolved takes
/// nothing away.
pub proof fn lemma_set_param_grows(w: World, m: Marks, i: int, g: int, t: int, pm: ParamMarks)
    requires
        shaped(w, m),
        0 <= i < m.powers.len(),
        0 <= g < m.powers[i].params.len(),
        0 <= t < m.powers[i].params[g].len(),
        pm.resolved,
    ensures
        shaped(w, set_param(m, i, g, t, pm)),
        marks_grow(m, set_param(m, i, g, t, pm)),
{
    let n = set_param(m, i, g, t, pm);
    assert forall|k: int, h: int|
        0 <= k < n.powers.len() && 0 <= h < n.powers[k].params.len() implies (
    #[trigger] n.powers[k].params[h]).len() == w.powers[k].grants[h].len() by {
        assert(m.powers[k].params[h].len() == w.powers[k].grants[h].len());
    }
}

/// Visiting a parameter advances the marks.
pub proof fn lemma_param_step_advances(w: World, m: Marks, i: int, g: int, t: int)
    requires
        shaped(w, m),
        0 <= i < m.powers.len(),
        0 <= g < m.powers[i].params.len(),
        0 <= t < m.powers[i].params[g].len(),
    ensures
        advances(w, m, param_step(w, m, i, g, t)),
{
    lemma_param_step_pending(w, m, i, g, t);
    let pm = m.powers[i].params[g][t];
    if !pm.resolved {
        let latched = ParamMarks { resolved: true, ..pm };
        lemma_set_param_grows(w, m, i, g, t, latched);
        match w.powers[i].grants[g][t] {
            GrantDef::Entity(Some(name)) => {
                if has_key(w.villain_keys, name) {
                    let v = key_position(w.villain_keys, name);
                    let refs = pm.power_refs + granted_in(w, w.villains[v]);
                    let pm2 = ParamMarks {
                        resolved: true,
                        villain_def: Some(v as usize),
                        power_refs: refs,
                    };
                    lemma_set_param_grows(w, m, i, g, t, pm2);
                    let mid = set_param(m, i, g, t, pm2);
                    lemma_mark_each_grows(
                        w,
                        mid,
                        others(refs, None),
                        class_archetypes(w.class_keys, w.villains[v]),
                    );
                    let end = param_step(w, m, i, g, t);
                    lemma_grow_chain(m, mid, end);
                }
            },
            GrantDef::Entity(None) => {},
            GrantDef::Powers(names) => {
                let mid = set_param(m, i, g, t, latched);
                lemma_mark_each_grows(
                    w,
                    mid,
                    others(names, w.powers[i].full_name),
                    m.powers[i].archetypes,
                );
                let end = param_step(w, m, i, g, t);
                lemma_grow_chain(m, mid, end);
            },
            GrantDef::Nothing => {},
        }
    }
}

/// What has all that the first marks have, has it still after more was
/// added.
pub proof fn lemma_grow_chain(a: Marks, b: Marks, c: Marks)
    requires
        marks_grow(a, b),
        marks_grow(b, c),
    ensures
        marks_grow(a, c),
{
    assert forall|p: int| 0 <= p < a.powers.len() implies {
        let was = a.powers[p];
        let is = #[trigger] c.powers[p];
        &&& was.included ==> is.included
        &&& was.redirects_resolved ==> is.redirects_resolved
        &&& is.params.len() == was.params.len()
        &&& forall|g: int|
            0 <= g < was.params.len() ==> (#[trigger] is.params[g]).len() == was.params[g].len()
        &&& forall|g: int, t: int|
            0 <= g < was.params.len() && 0 <= t < was.params[g].len() && was.params[g][t].resolved
                ==> (#[trigger] is.params[g][t]).resolved
    } by {
        let mid = b.powers[p];
        let was = a.powers[p];
        let is = c.powers[p];
        assert forall|g: int| 0 <= g < was.params.len() implies (#[trigger] is.params[g]).len()
            == was.params[g].len() by {
            assert(mid.params[g].len() == was.params[g].len());
        }
        assert forall|g: int, t: int|
            0 <= g < was.params.len() && 0 <= t < was.params[g].len()
                && was.params[g][t].resolved implies (#[trigger] is.params[g][t]).resolved by {
            assert(mid.params[g].len() == was.params[g].len());
            assert(mid.params[g][t].resolved);
        }
    }
    assert forall|k: int| 0 <= k < a.cats.len() && a.cats[k] implies #[trigger] c.cats[k] by {
        assert(b.cats[k]);
    }
    assert forall|k: int| 0 <= k < a.sets.len() && a.sets[k] implies #[trigger] c.sets[k] by {
        assert(b.sets[k]);
    }
}

/// Marks that stay as they are advance.
pub proof fn lemma_advances_same(w: World, m: Marks)
    requires
        shaped(w, m),
    ensures
        advances(w, m, m),
{
}

/// Visiting the first `t` parameters of an effect group advances the marks.
pub proof fn lemma_group_steps_advance(w: World, m: Marks, i: int, g: int, t: nat)
    requires
        shaped(w, m),
        0 <= i < m.powers.len(),
        0 <= g < m.powers[i].params.len(),
        t <= m.powers[i].params[g].len(),
    ensures
        advances(w, m, group_steps(w, m, i, g, t)),
    decreases t,
{
    if t == 0 {
        lemma_advances_same(w, m);
    } else {
        lemma_group_steps_advance(w, m, i, g, (t - 1) as nat);
        let before = group_steps(w, m, i, g, (t - 1) as nat);
        assert(before.powers[i].params[g].len() == m.powers[i].params[g].len());
        lemma_param_step_advances(w, before, i, g, t - 1);
        lemma_advances_chain(w, m, before, group_steps(w, m, i, g, t));
    }
}

/// Visiting the first `g` effect groups of a power advances the marks.
pub proof fn lemma_power_steps_advance(w: World, m: Marks, i: int, g: nat)
    requires
        shaped(w, m),
        0 <= i < m.powers.len(),
        g <= m.powers[i].params.len(),
    ensures
        advances(w, m, power_steps(w, m, i, g)),
    decreases g,
{
    if g == 0 {
        lemma_advances_same(w, m);
    } else {
        lemma_power_steps_advance(w, m, i, (g - 1) as nat);
        let before = power_steps(w, m, i, (g - 1) as nat);
        assert(before.powers[i].params[g - 1].len() == w.powers[i].grants[g - 1].len());
        lemma_group_steps_advance(w, before, i, g - 1, w.powers[i].grants[g - 1].len());
        lemma_advances_chain(w, m, before, power_steps(w, m, i, g));
    }
}

/// Visiting the first `k` powers for their grants advances the marks.
pub proof fn lemma_grant_pass_advances(w: World, m: Marks, k: nat)
    requires
        shaped(w, m),
        k <= m.powers.len(),
    ensures
        advances(w, m, grant_pass(w, m, k)),
    decreases k,
{
    if k == 0 {
        lemma_advances_same(w, m);
    } else {
        lemma_grant_pass_advances(w, m, (k - 1) as nat);
        let before = grant_pass(w, m, (k - 1) as nat);
        if before.powers[k - 1].included {
            assert(before.powers[k - 1].params.len() == w.powers[k - 1].grants.len());
            lemma_power_steps_advance(w, before, k - 1, w.powers[k - 1].grants.len());
        } else {
            lemma_advances_same(w, before);
        }
        lemma_advances_chain(w, m, before, grant_pass(w, m, k));
    }
}

/// Visiting a power for its redirects advances the marks.
pub proof fn lemma_redirect_visit_advances(w: World, m: Marks, i: int)
    requires
        shaped(w, m),
        0 <= i < m.powers.len(),
    ensures
        advances(w, m, redirect_visit(w.names, w.powers, m, i)),
{
    if redirects_due(m, i) {
        let marked = mark_each(w.names, m, w.powers[i].redirects, m.powers[i].archetypes);
        lemma_mark_each_grows(w, m, w.powers[i].redirects, m.powers[i].archetypes);
        lemma_mark_each_keeps_latches(w.names, m, w.powers[i].redirects, m.powers[i].archetypes);
        lemma_latch_redirects_pending(marked, i);
        let end = latch_redirects(marked, i);
        assert(marks_grow(marked, end));
        lemma_grow_chain(m, marked, end);
        assert forall|k: int, h: int|
            0 <= k < end.powers.len() && 0 <= h < end.powers[k].params.len() implies (
        #[trigger] end.powers[k].params[h]).len() == w.powers[k].grants[h].len() by {
            assert(marked.powers[k].params[h].len() == w.powers[k].grants[h].len());
        }
    }
}

/// Visiting the first `k` powers for their redirects advances the marks.
pub proof fn lemma_redirect_pass_advances(w: World, m: Marks, k: nat)
    requires
        shaped(w, m),
        k <= m.powers.len(),
    ensures
        advances(w, m, redirect_pass(w.names, w.powers, m, k)),
    decreases k,
{
    if k == 0 {
        lemma_advances_same(w, m);
    } else {
        lemma_redirect_pass_advances(w, m, (k - 1) as nat);
        let before = redirect_pass(w.names, w.powers, m, (k - 1) as nat);
        lemma_redirect_visit_advances(w, before, k - 1);
        lemma_advances_chain(w, m, before, redirect_pass(w.names, w.powers, m, k));
    }
}

/// A pass over the tables advances the marks.
pub proof fn lemma_full_pass_advances(w: World, m: Marks)
    requires
        shaped(w, m),
    ensures
        advances(w, m, full_pass(w, m)),
{
    lemma_grant_pass_advances(w, m, w.powers.len());
    let granted = grant_pass(w, m, w.powers.len());
    lemma_redirect_pass_advances(w, granted, w.powers.len());
    lemma_advances_chain(w, m, granted, full_pass(w, m));
}

/// Across the whole of resolution the marks only grow: a category, a power
/// set or a power that is included is never excluded again, and a latch
/// that is closed is never opened again.
pub proof fn law_marks_only_grow(w: World, m: Marks)
    requires
        shaped(w, m),
    ensures
        marks_grow(m, fixed_point(w, m)),
        shaped(w, fixed_point(w, m)),
    decreases pending(m),
{
    lemma_full_pass_advances(w, m);
    let next = full_pass(w, m);
    if pending(next) < pending(m) {
        law_marks_only_grow(w, next);
        lemma_grow_chain(m, next, fixed_point(w, next));
    }
}

/// The marks have a place for every record and parameter.
pub open spec fn marks_fit(names: Names, defs: Seq<PowerDef>, m: Marks) -> bool {
    shaped(
        World {
            names,
            members: Seq::empty(),
            powers: defs,
            villain_keys: Seq::empty(),
            villains: Seq::empty(),
            class_keys: Seq::empty(),
        },
        m,
    )
}

/// A pass over the grants only lets the marks grow.
pub proof fn law_grant_pass_only_grows(w: World, m: Marks)
    requires
        shaped(w, m),
    ensures
        marks_grow(m, grant_pass(w, m, w.powers.len())),
{
    lemma_grant_pass_advances(w, m, w.powers.len());
}

/// A pass over the redirects only lets the marks grow.
pub proof fn law_redirect_pass_only_grows(names: Names, defs: Seq<PowerDef>, m: Marks)
    requires
        marks_fit(names, defs, m),
    ensures
        marks_grow(m, redirect_pass(names, defs, m, defs.len())),
{
    let w = World {
        names,
        members: Seq::empty(),
        powers: defs,
        villain_keys: Seq::empty(),
        villains: Seq::empty(),
        class_keys: Seq::empty(),
    };
    lemma_redirect_pass_advances(w, m, defs.len());
}

/// Resolving what is resolved changes nothing: at the fixed point a
/// further pass closes no latch and leaves every mark as it is, so a second
/// run of the resolution counts nothing.
pub proof fn law_fixed_point_is_stable(w: World, m: Marks)
    requires
        shaped(w, m),
    ensures
        full_pass(w, fixed_point(w, m)) == fixed_point(w, m),
        fixed_point(w, fixed_point(w, m)) == fixed_point(w, m),
        pending(fixed_point(w, fixed_point(w, m))) == pending(fixed_point(w, m)),
    decreases pending(m),
{
    lemma_full_pass_advances(w, m);
    let next = full_pass(w, m);
    if pending(next) < pending(m) {
        law_fixed_point_is_stable(w, next);
    } else {
        assert(next == m);
        assert(fixed_point(w, m) == m);
    }
}

/// Every effect parameter of every included power has been followed.
pub open spec fn grants_settled(m: Marks) -> bool {
    forall|i: int, g: int, t: int|
        0 <= i < m.powers.len() && m.powers[i].included && 0 <= g < m.powers[i].params.len() && 0
            <= t < m.powers[i].params[g].len() ==> (#[trigger] m.powers[i].params[g][t]).resolved
}

/// The redirects of every included power have been followed.
pub open spec fn redirects_settled(m: Marks) -> bool {
    forall|i: int|
        0 <= i < m.powers.len() && (#[trigger] m.powers[i]).included
            ==> m.powers[i].redirects_resolved
}

proof fn lemma_settled_group_steps(w: World, m: Marks, i: int, g: int, t: nat)
    requires
        0 <= i < m.powers.len(),
        0 <= g < m.powers[i].params.len(),
        t <= m.powers[i].params[g].len(),
        m.powers[i].included,
        grants_settled(m),
    ensures
        group_steps(w, m, i, g, t) == m,
    decreases t,
{
    if t > 0 {
        lemma_settled_group_steps(w, m, i, g, (t - 1) as nat);
        assert(m.powers[i].params[g][t - 1].resolved);
    }
}

proof fn lemma_settled_power_steps(w: World, m: Marks, i: int, g: nat)
    requires
        shaped(w, m),
        0 <= i < m.powers.len(),
        g <= m.powers[i].params.len(),
        m.powers[i].included,
        grants_settled(m),
    ensures
        power_steps(w, m, i, g) == m,
    decreases g,
{
    if g > 0 {
        lemma_settled_power_steps(w, m, i, (g - 1) as nat);
        assert(m.powers[i].params[g - 1].len() == w.powers[i].grants[g - 1].len());
        lemma_settled_group_steps(w, m, i, g - 1, w.powers[i].grants[g - 1].len());
    }
}

proof fn lemma_settled_grant_pass(w: World, m: Marks, k: nat)
    requires
        shaped(w, m),
        k <= m.powers.len(),
        grants_settled(m),
    ensures
        grant_pass(w, m, k) == m,
    decreases k,
{
    if k > 0 {
        lemma_settled_grant_pass(w, m, (k - 1) as nat);
        if m.powers[k - 1].included {
            assert(m.powers[k - 1].params.len() == w.powers[k - 1].grants.len());
            lemma_settled_power_steps(w, m, k - 1, w.powers[k - 1].grants.len());
        }
    }
}

/// Where every effect parameter of every included power has been followed,
/// a pass over the grants changes nothing.
pub proof fn law_settled_grants_are_left_alone(w: World, m: Marks)
    requires
        shaped(w, m),
        grants_settled(m),
    ensures
        grant_pass(w, m, w.powers.len()) == m,
{
    lemma_settled_grant_pass(w, m, w.powers.len());
}

proof fn lemma_settled_redirect_pass(names: Names, defs: Seq<PowerDef>, m: Marks, k: nat)
    requires
        k <= m.powers.len(),
        redirects_settled(m),
    ensures
        redirect_pass(names, defs, m, k) == m,
    decreases k,
{
    if k > 0 {
        lemma_settled_redirect_pass(names, defs, m, (k - 1) as nat);
        assert(!redirects_due(m, k - 1));
    }
}

/// Where the redirects of every included power have been followed, a pass
/// over the redirects changes nothing.
pub proof fn law_settled_redirects_are_left_alone(names: Names, defs: Seq<PowerDef>, m: Marks)
    requires
        defs.len() <= m.powers.len(),
        redirects_settled(m),
    ensures
        redirect_pass(names, defs, m, defs.len()) == m,
{
    lemma_settled_redirect_pass(names, defs, m, defs.len());
}

} // verus!
