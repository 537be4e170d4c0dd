//! Marking powers for inclusion, and following redirects and grants until
//! nothing new is reached.

use vstd::prelude::*;
use crate::keyed::{lemma_position_unique, Keyed};
use crate::marks::{
    lemma_frame_keeps_defs, lemma_frame_reflexive, lemma_mark_each_keeps_latches,
    lemma_mark_keeps_latches, lemma_sum_update, lemma_tables_frame_transitive, mark, mark_each,
    merge_archetypes, pending_in_power, pending_params, pending_redirects, power_defs,
    power_frame, power_marks, table_marks, table_names, tables_frame, Marks, Names, PowerDef,
    PowerMarks,
};
use crate::monotone::{
    law_redirect_pass_only_grows, law_settled_redirects_are_left_alone, marks_grow,
    redirects_settled,
};
use crate::namekey::{same_key, texts, NameKey};
use crate::structs::{ArchetypeRef, BasePower, BasePowerSet, PowerCategory};

verus! {

/// A copy of a list of archetype references.
pub fn clone_refs(list: &Vec<ArchetypeRef>) -> (r: Vec<ArchetypeRef>)
    ensures
        r@ == list@,
{
    let mut r: Vec<ArchetypeRef> = Vec::new();
    let mut i: usize = 0;
    while i < list.len()
        invariant
            i <= list.len(),
            r@ == list@.take(i as int),
        decreases list.len() - i,
    {
        r.push(list[i]);
        i += 1;
    }
    assert(list@.take(list.len() as int) =~= list@);
    r
}

/// Whether the list holds a reference to the archetype.
pub fn has_archetype(list: &Vec<ArchetypeRef>, a: ArchetypeRef) -> (r: bool)
    ensures
        r == list@.contains(a),
{
    let mut i: usize = 0;
    while i < list.len()
        invariant
            i <= list.len(),
            forall|j: int| 0 <= j < i ==> list@[j] != a,
        decreases list.len() - i,
    {
        if list[i] == a {
            return true;
        }
        i += 1;
    }
    false
}

/// Adds to `own` the archetypes of `inherit` that it does not have.
pub fn merge_into(own: &mut Vec<ArchetypeRef>, inherit: &Vec<ArchetypeRef>)
    ensures
        final(own)@ == merge_archetypes(old(own)@, inherit@),
{
    let mut i: usize = 0;
    while i < inherit.len()
        invariant
            i <= inherit.len(),
            own@ == merge_archetypes(old(own)@, inherit@.take(i as int)),
        decreases inherit.len() - i,
    {
        assert(inherit@.take(i + 1).drop_last() =~= inherit@.take(i as int));
        if !has_archetype(own, inherit[i]) {
            own.push(inherit[i]);
        }
        i += 1;
    }
    assert(inherit@.take(inherit.len() as int) =~= inherit@);
}

/// Marks the category named `name` as included, if the table has it.
fn include_category(power_cats: &mut Keyed<PowerCategory>, name: &NameKey)
    requires
        old(power_cats).wf(),
    ensures
        final(power_cats).wf(),
        final(power_cats).key_seq() == old(power_cats).key_seq(),
        final(power_cats).value_seq().len() == old(power_cats).value_seq().len(),
        forall|i: int|
            0 <= i < old(power_cats).value_seq().len() ==> #[trigger] final(power_cats).value_seq()[i] == (PowerCategory {
                include_in_output: old(power_cats).value_seq()[i].include_in_output || same_key(
                    old(power_cats).key_seq()[i],
                    name@,
                ),
                ..old(power_cats).value_seq()[i]
            }),
{
    match power_cats.find(name) {
        Some(c) => {
            let cat = power_cats.value_mut(c);
            cat.include_in_output = true;
            proof {
                let keys = old(power_cats).key_seq();
                assert forall|i: int| 0 <= i < keys.len() && i != c implies !same_key(
                    keys[i],
                    name@,
                ) by {
                    if same_key(keys[i], name@) {
                        lemma_position_unique(keys, name@, i);
                    }
                }
            }
        },
        None => {},
    }
}

/// Marks the power set named `name` as included, if the table has it.
fn include_set(power_sets: &mut Keyed<BasePowerSet>, name: &NameKey)
    requires
        old(power_sets).wf(),
    ensures
        final(power_sets).wf(),
        final(power_sets).key_seq() == old(power_sets).key_seq(),
        final(power_sets).value_seq().len() == old(power_sets).value_seq().len(),
        forall|i: int|
            0 <= i < old(power_sets).value_seq().len() ==> #[trigger] final(power_sets).value_seq()[i] == (BasePowerSet {
                include_in_output: old(power_sets).value_seq()[i].include_in_output || same_key(
                    old(power_sets).key_seq()[i],
                    name@,
                ),
                ..old(power_sets).value_seq()[i]
            }),
{
    match power_sets.find(name) {
        Some(s) => {
            let set = power_sets.value_mut(s);
            set.include_in_output = true;
            proof {
                let keys = old(power_sets).key_seq();
                assert forall|i: int| 0 <= i < keys.len() && i != s implies !same_key(
                    keys[i],
                    name@,
                ) by {
                    if same_key(keys[i], name@) {
                        lemma_position_unique(keys, name@, i);
                    }
                }
            }
        },
        None => {},
    }
}

/// Marks the power named `name` as included, if the table has it, and
/// merges the archetypes into its own.
fn include_power(powers: &mut Keyed<BasePower>, name: &NameKey, archetypes: &Vec<ArchetypeRef>)
    requires
        old(powers).wf(),
    ensures
        final(powers).wf(),
        final(powers).key_seq() == old(powers).key_seq(),
        final(powers).value_seq().len() == old(powers).value_seq().len(),
        forall|i: int|
            0 <= i < old(powers).value_seq().len() && !same_key(old(powers).key_seq()[i], name@)
                ==> #[trigger] final(powers).value_seq()[i] == old(powers).value_seq()[i],
        forall|i: int|
            0 <= i < old(powers).value_seq().len() && same_key(old(powers).key_seq()[i], name@)
                ==> {
                let n = #[trigger] final(powers).value_seq()[i];
                let o = old(powers).value_seq()[i];
                &&& n == (BasePower { include_in_output: true, archetypes: n.archetypes, ..o })
                &&& n.archetypes@ == merge_archetypes(o.archetypes@, archetypes@)
            },
{
    match powers.find(name) {
        Some(p) => {
            let power = powers.value_mut(p);
            power.include_in_output = true;
            merge_into(&mut power.archetypes, archetypes);
            proof {
                let keys = old(powers).key_seq();
                assert forall|i: int| 0 <= i < keys.len() && i != p implies !same_key(
                    keys[i],
                    name@,
                ) by {
                    if same_key(keys[i], name@) {
                        lemma_position_unique(keys, name@, i);
                    }
                }
            }
        },
        None => {},
    }
}

/// Marks the category, the power set and the power that `power_ref` names
/// to be included in the output, each where its table has it: a part that
/// is missing does not keep the others from being marked. The power, where
/// found, gets the archetypes of `archetypes` that it does not have yet.
pub fn mark_power_for_inclusion(
    power_ref: &NameKey,
    archetypes: &Vec<ArchetypeRef>,
    power_cats: &mut Keyed<PowerCategory>,
    power_sets: &mut Keyed<BasePowerSet>,
    powers: &mut Keyed<BasePower>,
)
    requires
        old(power_cats).wf(),
        old(power_sets).wf(),
        old(powers).wf(),
    ensures
        final(power_cats).wf(),
        final(power_sets).wf(),
        final(powers).wf(),
        tables_frame(
            *old(power_cats),
            *old(power_sets),
            *old(powers),
            *final(power_cats),
            *final(power_sets),
            *final(powers),
        ),
        table_marks(*final(power_cats), *final(power_sets), *final(powers)) == mark(
            table_names(*old(power_cats), *old(power_sets), *old(powers)),
            table_marks(*old(power_cats), *old(power_sets), *old(powers)),
            power_ref@,
            archetypes@,
        ),
        // nothing that was included is excluded, and no latch is touched
        marks_grow(
            table_marks(*old(power_cats), *old(power_sets), *old(powers)),
            table_marks(*final(power_cats), *final(power_sets), *final(powers)),
        ),
{
    let name_parts = power_ref.split();
    assert(texts(name_parts@)[0] == name_parts@[0]@);
    include_category(power_cats, &name_parts[0]);
    if name_parts.len() >= 2 {
        assert(texts(name_parts@)[1] == name_parts@[1]@);
        let first_two_parts = name_parts[0].join(&name_parts[1]);
        include_set(power_sets, &first_two_parts);
    }
    include_power(powers, power_ref, archetypes);
    proof {
        let names = table_names(*old(power_cats), *old(power_sets), *old(powers));
        let m0 = table_marks(*old(power_cats), *old(power_sets), *old(powers));
        let m1 = table_marks(*power_cats, *power_sets, *powers);
        let want = mark(names, m0, power_ref@, archetypes@);
        lemma_mark_keeps_latches(names, m0, power_ref@, archetypes@);
        assert(m1.cats =~= want.cats);
        assert(m1.sets =~= want.sets);
        assert forall|i: int| 0 <= i < m1.powers.len() implies m1.powers[i] == want.powers[i] by {
            let n = powers.value_seq()[i];
            let o = old(powers).value_seq()[i];
            assert(power_marks(n).params =~= power_marks(o).params);
        }
        assert(m1.powers =~= want.powers);
        assert forall|i: int| 0 <= i < old(powers).value_seq().len() implies power_frame(
            old(powers).value_seq()[i],
            #[trigger] powers.value_seq()[i],
        ) by {
            lemma_frame_reflexive(
                old(power_cats).value_seq(),
                old(power_sets).value_seq(),
                old(powers).value_seq(),
            );
            let n = powers.value_seq()[i];
            let o = old(powers).value_seq()[i];
            assert(power_frame(o, o));
        }
    }
}

/// The marks with the redirects of power `i` latched as followed.
pub open spec fn latch_redirects(m: Marks, i: int) -> Marks {
    Marks { powers: m.powers.update(i, PowerMarks { redirects_resolved: true, ..m.powers[i] }), ..m }
}

/// Power `i` is included and its redirects have not been followed.
pub open spec fn redirects_due(m: Marks, i: int) -> bool {
    m.powers[i].included && !m.powers[i].redirects_resolved
}

/// The marks after power `i` was visited for its redirects: where they are
/// due, every target is marked in turn with the archetypes that the power
/// had when the visit began, and the power is latched.
pub open spec fn redirect_visit(names: Names, defs: Seq<PowerDef>, m: Marks, i: int) -> Marks {
    if redirects_due(m, i) {
        latch_redirects(mark_each(names, m, defs[i].redirects, m.powers[i].archetypes), i)
    } else {
        m
    }
}

/// The marks after the first `k` powers of the table were visited for their
/// redirects, in the order of the table.
pub open spec fn redirect_pass(names: Names, defs: Seq<PowerDef>, m: Marks, k: nat) -> Marks
    decreases k,
{
    if k == 0 {
        m
    } else {
        redirect_visit(names, defs, redirect_pass(names, defs, m, (k - 1) as nat), k - 1)
    }
}

/// Marks powers, power sets and categories to include in the output by
/// following the redirects of every included power whose redirects have
/// not been followed yet. The powers are visited once, in the order of the
/// table, so a power that this pass includes is followed in the same pass
/// only where it stands behind the power that led to it. Returns the number
/// of powers whose redirects were followed.
pub fn resolve_power_redirects(
    powers: &mut Keyed<BasePower>,
    power_cats: &mut Keyed<PowerCategory>,
    power_sets: &mut Keyed<BasePowerSet>,
) -> (count_resolved: usize)
    requires
        old(power_cats).wf(),
        old(power_sets).wf(),
        old(powers).wf(),
    ensures
        final(power_cats).wf(),
        final(power_sets).wf(),
        final(powers).wf(),
        tables_frame(
            *old(power_cats),
            *old(power_sets),
            *old(powers),
            *final(power_cats),
            *final(power_sets),
            *final(powers),
        ),
        table_marks(*final(power_cats), *final(power_sets), *final(powers)) == redirect_pass(
            table_names(*old(power_cats), *old(power_sets), *old(powers)),
            power_defs(old(powers).value_seq()),
            table_marks(*old(power_cats), *old(power_sets), *old(powers)),
            old(powers).value_seq().len(),
        ),
        count_resolved + pending_redirects(
            table_marks(*final(power_cats), *final(power_sets), *final(powers)),
        ) == pending_redirects(table_marks(*old(power_cats), *old(power_sets), *old(powers))),
        pending_params(table_marks(*final(power_cats), *final(power_sets), *final(powers)))
            == pending_params(table_marks(*old(power_cats), *old(power_sets), *old(powers))),
        // nothing that was included is excluded, and no latch is opened again
        marks_grow(
            table_marks(*old(power_cats), *old(power_sets), *old(powers)),
            table_marks(*final(power_cats), *final(power_sets), *final(powers)),
        ),
        // where the redirects of every included power were followed before,
        // nothing is counted and no mark changes
        redirects_settled(table_marks(*old(power_cats), *old(power_sets), *old(powers)))
            ==> count_resolved == 0 && table_marks(
            *final(power_cats),
            *final(power_sets),
            *final(powers),
        ) == table_marks(*old(power_cats), *old(power_sets), *old(powers)),
{
    let ghost names = table_names(*old(power_cats), *old(power_sets), *old(powers));
    let ghost defs = power_defs(old(powers).value_seq());
    let ghost m0 = table_marks(*old(power_cats), *old(power_sets), *old(powers));
    let n = powers.len();
    let mut count_resolved: usize = 0;
    let mut i: usize = 0;
    proof {
        lemma_frame_reflexive(
            old(power_cats).value_seq(),
            old(power_sets).value_seq(),
            old(powers).value_seq(),
        );
        law_redirect_pass_only_grows(names, defs, m0);
        if redirects_settled(m0) {
            law_settled_redirects_are_left_alone(names, defs, m0);
        }
    }
    while i < n
        invariant
            i <= n,
            n == powers.value_seq().len(),
            n == old(powers).value_seq().len(),
            count_resolved <= i,
            power_cats.wf(),
            power_sets.wf(),
            powers.wf(),
            names == table_names(*old(power_cats), *old(power_sets), *old(powers)),
            defs == power_defs(old(powers).value_seq()),
            m0 == table_marks(*old(power_cats), *old(power_sets), *old(powers)),
            tables_frame(
                *old(power_cats),
                *old(power_sets),
                *old(powers),
                *power_cats,
                *power_sets,
                *powers,
            ),
            table_marks(*power_cats, *power_sets, *powers) == redirect_pass(
                names,
                defs,
                m0,
                i as nat,
            ),
            count_resolved + pending_redirects(table_marks(*power_cats, *power_sets, *powers))
                == pending_redirects(m0),
            pending_params(table_marks(*power_cats, *power_sets, *powers)) == pending_params(m0),
        decreases n - i,
    {
        let ghost m_start = table_marks(*power_cats, *power_sets, *powers);
        let power = powers.value(i);
        if power.include_in_output && !power.redirects_resolved {
            let inherit = clone_refs(&power.archetypes);
            let redirects = power.pp_redirect.len();
            proof {
                lemma_frame_keeps_defs(
                    *old(power_cats),
                    *old(power_sets),
                    *old(powers),
                    *power_cats,
                    *power_sets,
                    *powers,
                );
                assert(power_defs(powers.value_seq())[i as int] == defs[i as int]);
                assert(defs[i as int].redirects.take(0) =~= Seq::empty());
            }
            let mut j: usize = 0;
            while j < redirects
                invariant
                    j <= redirects,
                    i < n,
                    n == powers.value_seq().len(),
                    n == old(powers).value_seq().len(),
                    redirects == defs[i as int].redirects.len(),
                    redirects == powers.value_seq()[i as int].pp_redirect@.len(),
                    power_cats.wf(),
                    power_sets.wf(),
                    powers.wf(),
                    names == table_names(*old(power_cats), *old(power_sets), *old(powers)),
                    defs == power_defs(old(powers).value_seq()),
                    tables_frame(
                        *old(power_cats),
                        *old(power_sets),
                        *old(powers),
                        *power_cats,
                        *power_sets,
                        *powers,
                    ),
                    table_marks(*power_cats, *power_sets, *powers) == mark_each(
                        names,
                        m_start,
                        defs[i as int].redirects.take(j as int),
                        inherit@,
                    ),
                decreases redirects - j,
            {
                let ghost c1 = *power_cats;
                let ghost s1 = *power_sets;
                let ghost pw1 = *powers;
                proof {
                    lemma_frame_keeps_defs(
                        *old(power_cats),
                        *old(power_sets),
                        *old(powers),
                        c1,
                        s1,
                        pw1,
                    );
                    assert(power_defs(pw1.value_seq())[i as int] == defs[i as int]);
                    assert(defs[i as int].redirects.take(j + 1).drop_last()
                        =~= defs[i as int].redirects.take(j as int));
                }
                let target = match &powers.value(i).pp_redirect[j].pch_name {
                    Some(name) => Some(name.clone()),
                    None => None,
                };
                match target {
                    Some(name) => {
                        mark_power_for_inclusion(&name, &inherit, power_cats, power_sets, powers);
                        proof {
                            lemma_tables_frame_transitive(
                                *old(power_cats),
                                *old(power_sets),
                                *old(powers),
                                c1,
                                s1,
                                pw1,
                                *power_cats,
                                *power_sets,
                                *powers,
                            );
                        }
                    },
                    None => {},
                }
                proof {
                    lemma_frame_keeps_defs(
                        *old(power_cats),
                        *old(power_sets),
                        *old(powers),
                        *power_cats,
                        *power_sets,
                        *powers,
                    );
                    assert(power_defs(powers.value_seq())[i as int] == defs[i as int]);
                }
                j += 1;
            }
            proof {
                assert(defs[i as int].redirects.take(redirects as int) =~= defs[i as int].redirects);
                lemma_mark_each_keeps_latches(names, m_start, defs[i as int].redirects, inherit@);
            }
            let ghost pw2 = *powers;
            let ghost m_marked = table_marks(*power_cats, *power_sets, *powers);
            let power = powers.value_mut(i);
            power.redirects_resolved = true;
            count_resolved += 1;
            proof {
                let m_end = table_marks(*power_cats, *power_sets, *powers);
                let want = latch_redirects(m_marked, i as int);
                assert forall|k: int| 0 <= k < n implies m_end.powers[k] == want.powers[k] by {
                    assert(power_marks(powers.value_seq()[k]).params =~= power_marks(
                        pw2.value_seq()[k],
                    ).params);
                }
                assert(m_end.powers =~= want.powers);
                assert(m_end.cats =~= want.cats);
                assert(m_end.sets =~= want.sets);
                assert forall|k: int| 0 <= k < n implies power_frame(
                    old(powers).value_seq()[k],
                    #[trigger] powers.value_seq()[k],
                ) by {
                    assert(power_frame(old(powers).value_seq()[k], pw2.value_seq()[k]));
                }
                lemma_latch_redirects_pending(m_marked, i as int);
            }
        }
        i += 1;
    }
    count_resolved
}

/// Latching the redirects of a power that was not latched takes one from
/// the number of powers that wait for it.
pub proof fn lemma_latch_redirects_pending(m: Marks, i: int)
    requires
        0 <= i < m.powers.len(),
        !m.powers[i].redirects_resolved,
    ensures
        pending_redirects(latch_redirects(m, i)) + 1 == pending_redirects(m),
        pending_params(latch_redirects(m, i)) == pending_params(m),
{
    let n = latch_redirects(m, i);
    let before = Seq::new(
        m.powers.len(),
        |k: int|
            if m.powers[k].redirects_resolved {
                0nat
            } else {
                1nat
            },
    );
    let after = Seq::new(
        n.powers.len(),
        |k: int|
            if n.powers[k].redirects_resolved {
                0nat
            } else {
                1nat
            },
    );
    assert(after =~= before.update(i, 0nat));
    lemma_sum_update(before, i, 0nat);
    assert(Seq::new(n.powers.len(), |k: int| pending_in_power(n.powers[k])) =~= Seq::new(
        m.powers.len(),
        |k: int| pending_in_power(m.powers[k]),
    ));
}

} // verus!
