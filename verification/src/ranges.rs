//! References stay in range: resolution gives a power only archetypes of
//! the tables of classes, and an effect parameter only an entity definition
//! of the table of villains.

use vstd::prelude::*;
use crate::grants::{
    class_archetypes, grant_pass, granted_in, group_steps, others, param_step, power_steps,
    set_param, shaped, World,
};
use crate::keyed::{has_key, key_position};
use crate::load::{fixed_point, full_pass, pending};
use crate::marks::{
    lemma_mark_keeps_latches, mark, mark_each, merge_archetypes, GrantDef, Marks, ParamMarks,
};
use crate::matcher::{ref_in_range, refs_in_range};
use crate::monotone::{
    lemma_full_pass_advances, lemma_grant_pass_advances, lemma_group_steps_advance,
    lemma_mark_each_grows, lemma_power_steps_advance, lemma_redirect_pass_advances,
};
use crate::resolve::{latch_redirects, redirect_pass, redirects_due};
use crate::structs::ArchetypeRef;

verus! {

/// Every archetype of every power is one of a table of players' classes of
/// the given size or of the world's table of villain classes, and every
/// entity definition that an effect parameter was resolved to is one of the
/// world's table of villains.
pub open spec fn marks_in_range(w: World, m: Marks, players: nat) -> bool {
    &&& forall|p: int|
        0 <= p < m.powers.len() ==> refs_in_range(
            (#[trigger] m.powers[p]).archetypes,
            players,
            w.class_keys.len(),
        )
    &&& forall|i: int, g: int, t: int|
        0 <= i < m.powers.len() && 0 <= g < m.powers[i].params.len() && 0 <= t
            < m.powers[i].params[g].len() && (#[trigger] m.powers[i].params[g][t]).villain_def is Some
            ==> m.powers[i].params[g][t].villain_def->0 < w.villain_keys.len()
}

/// The tables of the world are no larger than the machine can count.
pub open spec fn world_fits(w: World) -> bool {
    w.class_keys.len() <= usize::MAX && w.villain_keys.len() <= usize::MAX
}

/// Merging archetypes that are in range gives archetypes that are in range.
pub proof fn lemma_merge_in_range(
    own: Seq<ArchetypeRef>,
    inherit: Seq<ArchetypeRef>,
    players: nat,
    villains: nat,
)
    requires
        refs_in_range(own, players, villains),
        refs_in_range(inherit, players, villains),
    ensures
        refs_in_range(merge_archetypes(own, inherit), players, villains),
    decreases inherit.len(),
{
    if inherit.len() > 0 {
        let fewer = inherit.drop_last();
        assert forall|k: int| 0 <= k < fewer.len() implies ref_in_range(
            #[trigger] fewer[k],
            players,
            villains,
        ) by {
            assert(fewer[k] == inherit[k]);
        }
        lemma_merge_in_range(own, fewer, players, villains);
        assert(ref_in_range(inherit[inherit.len() - 1], players, villains));
    }
}

proof fn lemma_mark_in_range(
    w: World,
    m: Marks,
    target: Seq<char>,
    inherit: Seq<ArchetypeRef>,
    players: nat,
)
    requires
        marks_in_range(w, m, players),
        refs_in_range(inherit, players, w.class_keys.len()),
    ensures
        marks_in_range(w, mark(w.names, m, target, inherit), players),
{
    let end = mark(w.names, m, target, inherit);
    lemma_mark_keeps_latches(w.names, m, target, inherit);
    assert forall|p: int| 0 <= p < end.powers.len() implies refs_in_range(
        (#[trigger] end.powers[p]).archetypes,
        players,
        w.class_keys.len(),
    ) by {
        assert(refs_in_range(m.powers[p].archetypes, players, w.class_keys.len()));
        lemma_merge_in_range(m.powers[p].archetypes, inherit, players, w.class_keys.len());
    }
    assert forall|i: int, g: int, t: int|
        0 <= i < end.powers.len() && 0 <= g < end.powers[i].params.len() && 0 <= t
            < end.powers[i].params[g].len() && (
        #[trigger] end.powers[i].params[g][t]).villain_def is Some implies end.powers[i].params[g][t].villain_def->0
        < w.villain_keys.len() by {
        assert(end.powers[i].params == m.powers[i].params);
        assert(m.powers[i].params[g][t].villain_def is Some);
    }
}

proof fn lemma_mark_each_in_range(
    w: World,
    m: Marks,
    targets: Seq<Option<Seq<char>>>,
    inherit: Seq<ArchetypeRef>,
    players: nat,
)
    requires
        marks_in_range(w, m, players),
        refs_in_range(inherit, players, w.class_keys.len()),
    ensures
        marks_in_range(w, mark_each(w.names, m, targets, inherit), players),
    decreases targets.len(),
{
    if targets.len() > 0 {
        lemma_mark_each_in_range(w, m, targets.drop_last(), inherit, players);
        match targets.last() {
            Some(t) => {
                lemma_mark_in_range(
                    w,
                    mark_each(w.names, m, targets.drop_last(), inherit),
                    t,
                    inherit,
                    players,
                );
            },
            None => {},
        }
    }
}

proof fn lemma_set_param_in_range(
    w: World,
    m: Marks,
    i: int,
    g: int,
    t: int,
    pm: ParamMarks,
    players: nat,
)
    requires
        marks_in_range(w, m, players),
        0 <= i < m.powers.len(),
        0 <= g < m.powers[i].params.len(),
        0 <= t < m.powers[i].params[g].len(),
        pm.villain_def is Some ==> pm.villain_def->0 < w.villain_keys.len(),
    ensures
        marks_in_range(w, set_param(m, i, g, t, pm), players),
{
    let end = set_param(m, i, g, t, pm);
    assert forall|p: int| 0 <= p < end.powers.len() implies refs_in_range(
        (#[trigger] end.powers[p]).archetypes,
        players,
        w.class_keys.len(),
    ) by {
        assert(end.powers[p].archetypes == m.powers[p].archetypes);
    }
    assert forall|x: int, y: int, z: int|
        0 <= x < end.powers.len() && 0 <= y < end.powers[x].params.len() && 0 <= z
            < end.powers[x].params[y].len() && (
        #[trigger] end.powers[x].params[y][z]).villain_def is Some implies end.powers[x].params[y][z].villain_def->0
        < w.villain_keys.len() by {
        if !(x == i && y == g && z == t) {
            assert(end.powers[x].params[y][z] == m.powers[x].params[y][z]);
        }
    }
}

proof fn lemma_param_step_in_range(w: World, m: Marks, i: int, g: int, t: int, players: nat)
    requires
        shaped(w, m),
        world_fits(w),
        marks_in_range(w, m, players),
        0 <= i < m.powers.len(),
        0 <= g < m.powers[i].params.len(),
        0 <= t < m.powers[i].params[g].len(),
    ensures
        marks_in_range(w, param_step(w, m, i, g, t), players),
{
    let pm = m.powers[i].params[g][t];
    if !pm.resolved {
        let latched = ParamMarks { resolved: true, ..pm };
        match w.powers[i].grants[g][t] {
            GrantDef::Entity(Some(name)) => {
                if has_key(w.villain_keys, name) {
                    let v = key_position(w.villain_keys, name);
                    let refs = pm.power_refs + granted_in(w, w.villains[v]);
                    let pm2 = ParamMarks {
                        resolved: true,
                        villain_def: Some(v as usize),
                        power_refs: refs,
                    };
                    lemma_set_param_in_range(w, m, i, g, t, pm2, players);
                    let class = class_archetypes(w.class_keys, w.villains[v]);
                    assert(refs_in_range(class, players, w.class_keys.len()));
                    lemma_mark_each_in_range(
                        w,
                        set_param(m, i, g, t, pm2),
                        others(refs, None),
                        class,
                        players,
                    );
                } else {
                    lemma_set_param_in_range(w, m, i, g, t, latched, players);
                }
            },
            GrantDef::Entity(None) => {
                lemma_set_param_in_range(w, m, i, g, t, latched, players);
            },
            GrantDef::Powers(names) => {
                lemma_set_param_in_range(w, m, i, g, t, latched, players);
                lemma_mark_each_in_range(
                    w,
                    set_param(m, i, g, t, latched),
                    others(names, w.powers[i].full_name),
                    m.powers[i].archetypes,
                    players,
                );
            },
            GrantDef::Nothing => {
                lemma_set_param_in_range(w, m, i, g, t, latched, players);
            },
        }
    }
}

proof fn lemma_group_steps_in_range(w: World, m: Marks, i: int, g: int, t: nat, players: nat)
    requires
        shaped(w, m),
        world_fits(w),
        marks_in_range(w, m, players),
        0 <= i < m.powers.len(),
        0 <= g < m.powers[i].params.len(),
        t <= m.powers[i].params[g].len(),
    ensures
        marks_in_range(w, group_steps(w, m, i, g, t), players),
    decreases t,
{
    if t > 0 {
        lemma_group_steps_in_range(w, m, i, g, (t - 1) as nat, players);
        lemma_group_steps_advance(w, m, i, g, (t - 1) as nat);
        let before = group_steps(w, m, i, g, (t - 1) as nat);
        assert(before.powers[i].params[g].len() == m.powers[i].params[g].len());
        lemma_param_step_in_range(w, before, i, g, t - 1, players);
    }
}

proof fn lemma_power_steps_in_range(w: World, m: Marks, i: int, g: nat, players: nat)
    requires
        shaped(w, m),
        world_fits(w),
        marks_in_range(w, m, players),
        0 <= i < m.powers.len(),
        g <= m.powers[i].params.len(),
    ensures
        marks_in_range(w, power_steps(w, m, i, g), players),
    decreases g,
{
    if g > 0 {
        lemma_power_steps_in_range(w, m, i, (g - 1) as nat, players);
        lemma_power_steps_advance(w, m, i, (g - 1) as nat);
        let before = power_steps(w, m, i, (g - 1) as nat);
        assert(before.powers[i].params[g - 1].len() == w.powers[i].grants[g - 1].len());
        lemma_group_steps_in_range(w, before, i, g - 1, w.powers[i].grants[g - 1].len(), players);
    }
}

proof fn lemma_grant_pass_in_range(w: World, m: Marks, k: nat, players: nat)
    requires
        shaped(w, m),
        world_fits(w),
        marks_in_range(w, m, players),
        k <= m.powers.len(),
    ensures
        marks_in_range(w, grant_pass(w, m, k), players),
    decreases k,
{
    if k > 0 {
        lemma_grant_pass_in_range(w, m, (k - 1) as nat, players);
        lemma_grant_pass_advances(w, m, (k - 1) as nat);
        let before = grant_pass(w, m, (k - 1) as nat);
        if before.powers[k - 1].included {
            assert(before.powers[k - 1].params.len() == w.powers[k - 1].grants.len());
            lemma_power_steps_in_range(w, before, k - 1, w.powers[k - 1].grants.len(), players);
        }
    }
}

proof fn lemma_redirect_pass_in_range(w: World, m: Marks, k: nat, players: nat)
    requires
        shaped(w, m),
        marks_in_range(w, m, players),
        k <= m.powers.len(),
    ensures
        marks_in_range(w, redirect_pass(w.names, w.powers, m, k), players),
    decreases k,
{
    if k > 0 {
        lemma_redirect_pass_in_range(w, m, (k - 1) as nat, players);
        lemma_redirect_pass_advances(w, m, (k - 1) as nat);
        let before = redirect_pass(w.names, w.powers, m, (k - 1) as nat);
        let i = k - 1;
        if redirects_due(before, i) {
            let inherit = before.powers[i].archetypes;
            lemma_mark_each_in_range(w, before, w.powers[i].redirects, inherit, players);
            lemma_mark_each_grows(w, before, w.powers[i].redirects, inherit);
            let marked = mark_each(w.names, before, w.powers[i].redirects, inherit);
            let end = latch_redirects(marked, i);
            assert forall|p: int| 0 <= p < end.powers.len() implies refs_in_range(
                (#[trigger] end.powers[p]).archetypes,
                players,
                w.class_keys.len(),
            ) by {
                assert(end.powers[p].archetypes == marked.powers[p].archetypes);
            }
            assert forall|x: int, y: int, z: int|
                0 <= x < end.powers.len() && 0 <= y < end.powers[x].params.len() && 0 <= z
                    < end.powers[x].params[y].len() && (
                #[trigger] end.powers[x].params[y][z]).villain_def is Some implies end.powers[x].params[y][z].villain_def->0
                < w.villain_keys.len() by {
                assert(end.powers[x].params == marked.powers[x].params);
                assert(marked.powers[x].params[y][z].villain_def is Some);
            }
        }
    }
}

/// Resolution keeps every reference in range: where the archetypes of the
/// powers and the entity definitions of the effect parameters were of the
/// tables, they are at the fixed point.
pub proof fn law_resolution_keeps_references_in_range(w: World, m: Marks, players: nat)
    requires
        shaped(w, m),
        world_fits(w),
        marks_in_range(w, m, players),
    ensures
        marks_in_range(w, fixed_point(w, m), players),
    decreases pending(m),
{
    lemma_full_pass_advances(w, m);
    lemma_grant_pass_advances(w, m, w.powers.len());
    lemma_grant_pass_in_range(w, m, w.powers.len(), players);
    lemma_redirect_pass_in_range(w, grant_pass(w, m, w.powers.len()), w.powers.len(), players);
    let next = full_pass(w, m);
    if pending(next) < pending(m) {
        law_resolution_keeps_references_in_range(w, next, players);
    }
}

} // verus!
