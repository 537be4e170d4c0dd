//! Entity grants: the powers that an effect gives by spawning an entity or
//! by naming them.

use vstd::prelude::*;
use crate::keyed::{has_key, key_position, Keyed};
use crate::marks::{
    group_frame, idle_param, lemma_frame_keeps_defs, lemma_frame_reflexive,
    lemma_mark_each_keeps_latches, lemma_sum_update, lemma_tables_frame_transitive, mark,
    mark_each, param_frame, param_marks, pending_in_group, pending_in_power, pending_params,
    pending_redirects, power_defs, power_frame, power_marks, set_members, table_marks,
    table_names, tables_frame, template_frame, GrantDef, Marks, Names, ParamMarks, PowerDef,
    PowerMarks,
};
use crate::namekey::{dotted, opt_text, same_key, texts, wildcard, NameKey};
use crate::resolve::{clone_refs, mark_power_for_inclusion};
use crate::structs::{
    Archetype, ArchetypeRef, AttribModParam, AttribModParam_EntCreate, AttribModParam_Power,
    AttribModTemplate, BasePower, BasePowerSet, EffectGroup, PowerCategory, PowerNameRef,
    VillainDef,
};

verus! {

/// The full name of each power of a table.
pub open spec fn full_names(powers: Seq<BasePower>) -> Seq<Option<Seq<char>>> {
    Seq::new(powers.len(), |i: int| opt_text(powers[i].pch_full_name))
}

/// The names that one power reference of an entity definition grants. A
/// reference whose power is the wildcard grants every power that the named
/// power set lists; another grants the full name of the power that it
/// names. A reference to something that the tables do not have grants
/// nothing.
pub open spec fn granted_by_ref(
    set_keys: Seq<Seq<char>>,
    members: Seq<Seq<Seq<char>>>,
    power_keys: Seq<Seq<char>>,
    names: Seq<Option<Seq<char>>>,
    r: PowerNameRef,
) -> Seq<Seq<char>> {
    let set_name = dotted(r.power_category@, r.power_set@);
    if r.power@ == wildcard() {
        if has_key(set_keys, set_name) {
            members[key_position(set_keys, set_name)]
        } else {
            Seq::empty()
        }
    } else {
        let power_name = dotted(set_name, r.power@);
        if has_key(power_keys, power_name) {
            match names[key_position(power_keys, power_name)] {
                Some(full) => seq![full],
                None => Seq::empty(),
            }
        } else {
            Seq::empty()
        }
    }
}

/// The names that the power references of an entity definition grants, in
/// the order of the references.
pub open spec fn granted(
    set_keys: Seq<Seq<char>>,
    members: Seq<Seq<Seq<char>>>,
    power_keys: Seq<Seq<char>>,
    names: Seq<Option<Seq<char>>>,
    refs: Seq<PowerNameRef>,
) -> Seq<Seq<char>>
    decreases refs.len(),
{
    if refs.len() == 0 {
        Seq::empty()
    } else {
        granted(set_keys, members, power_keys, names, refs.drop_last()) + granted_by_ref(
            set_keys,
            members,
            power_keys,
            names,
            refs.last(),
        )
    }
}

/// The key under which the table of villain classes keeps a class.
pub open spec fn class_key(class_name: Seq<char>) -> Seq<char> {
    seq!['@'] + class_name
}

/// The archetype of an entity: the villain class that its definition names,
/// if the definition names one and the table has it.
pub open spec fn class_archetypes(class_keys: Seq<Seq<char>>, v: VillainDef) -> Seq<ArchetypeRef> {
    match v.character_class_name {
        Some(c) => if has_key(class_keys, class_key(c@)) {
            seq![
                ArchetypeRef {
                    villain: true,
                    index: key_position(class_keys, class_key(c@)) as usize,
                },
            ]
        } else {
            Seq::empty()
        },
        None => Seq::empty(),
    }
}

/// The names as targets to mark, but for those that are the same key as
/// `skip`.
pub open spec fn others(names: Seq<Seq<char>>, skip: Option<Seq<char>>) -> Seq<Option<Seq<char>>> {
    Seq::new(
        names.len(),
        |k: int|
            if skip is Some && same_key(names[k], skip->0) {
                None
            } else {
                Some(names[k])
            },
    )
}

/// What the resolution of grants reads and never changes.
pub struct World {
    /// The keys of the tables of categories, power sets and powers.
    pub names: Names,
    /// The names of the powers of each power set.
    pub members: Seq<Seq<Seq<char>>>,
    /// What is read from each power.
    pub powers: Seq<PowerDef>,
    /// The keys of the table of entity definitions.
    pub villain_keys: Seq<Seq<char>>,
    /// The entity definitions.
    pub villains: Seq<VillainDef>,
    /// The keys of the table of villain classes.
    pub class_keys: Seq<Seq<char>>,
}

/// What the resolution of grants reads from the tables.
pub open spec fn world_of(
    villains: Keyed<VillainDef>,
    villain_archetypes: Keyed<Archetype>,
    cats: Keyed<PowerCategory>,
    sets: Keyed<BasePowerSet>,
    powers: Keyed<BasePower>,
) -> World {
    World {
        names: table_names(cats, sets, powers),
        members: set_members(sets.value_seq()),
        powers: power_defs(powers.value_seq()),
        villain_keys: villains.key_seq(),
        villains: villains.value_seq(),
        class_keys: villain_archetypes.key_seq(),
    }
}

/// The full names of the powers of a world.
pub open spec fn world_full_names(w: World) -> Seq<Option<Seq<char>>> {
    Seq::new(w.powers.len(), |i: int| w.powers[i].full_name)
}

/// The names that an entity definition grants in a world.
pub open spec fn granted_in(w: World, v: VillainDef) -> Seq<Seq<char>> {
    granted(w.names.sets, w.members, w.names.powers, world_full_names(w), v.powers@)
}

/// The marks with those of one effect parameter replaced.
pub open spec fn set_param(m: Marks, i: int, g: int, t: int, pm: ParamMarks) -> Marks {
    Marks {
        powers: m.powers.update(
            i,
            PowerMarks {
                params: m.powers[i].params.update(g, m.powers[i].params[g].update(t, pm)),
                ..m.powers[i]
            },
        ),
        ..m
    }
}

/// The parameter of effect `t` of group `g` of power `i` has not been
/// followed.
pub open spec fn param_due(m: Marks, i: int, g: int, t: int) -> bool {
    !m.powers[i].params[g][t].resolved
}

/// The marks after one effect parameter of an included power was visited.
/// A parameter that was followed before changes nothing, and one that
/// grants nothing counts as followed from the start. Otherwise the
/// parameter is latched, and
/// - one that spawns an entity whose definition the table has: takes the
///   position of the definition, adds the names that the definition grants
///   to its list, and every name of the list is marked with the entity's
///   class as the archetype to inherit;
/// - one that names powers: every named power but the power itself is
///   marked, with the archetypes that the power had when the visit began.
pub open spec fn param_step(w: World, m: Marks, i: int, g: int, t: int) -> Marks {
    let pm = m.powers[i].params[g][t];
    if pm.resolved {
        m
    } else {
        match w.powers[i].grants[g][t] {
            GrantDef::Entity(Some(name)) => if has_key(w.villain_keys, name) {
                let v = key_position(w.villain_keys, name);
                let refs = pm.power_refs + granted_in(w, w.villains[v]);
                mark_each(
                    w.names,
                    set_param(
                        m,
                        i,
                        g,
                        t,
                        ParamMarks { resolved: true, villain_def: Some(v as usize), power_refs: refs },
                    ),
                    others(refs, None),
                    class_archetypes(w.class_keys, w.villains[v]),
                )
            } else {
                set_param(m, i, g, t, ParamMarks { resolved: true, ..pm })
            },
            GrantDef::Entity(None) => set_param(m, i, g, t, ParamMarks { resolved: true, ..pm }),
            GrantDef::Powers(names) => mark_each(
                w.names,
                set_param(m, i, g, t, ParamMarks { resolved: true, ..pm }),
                others(names, w.powers[i].full_name),
                m.powers[i].archetypes,
            ),
            GrantDef::Nothing => set_param(m, i, g, t, ParamMarks { resolved: true, ..pm }),
        }
    }
}

/// The marks after the first `t` effects of group `g` of power `i` were
/// visited.
pub open spec fn group_steps(w: World, m: Marks, i: int, g: int, t: nat) -> Marks
    decreases t,
{
    if t == 0 {
        m
    } else {
        param_step(w, group_steps(w, m, i, g, (t - 1) as nat), i, g, t - 1)
    }
}

/// The marks after the first `g` effect groups of power `i` were visited.
pub open spec fn power_steps(w: World, m: Marks, i: int, g: nat) -> Marks
    decreases g,
{
    if g == 0 {
        m
    } else {
        group_steps(
            w,
            power_steps(w, m, i, (g - 1) as nat),
            i,
            g - 1,
            w.powers[i].grants[g - 1].len(),
        )
    }
}

/// The marks after power `i` was visited for its grants: where it is
/// included when the visit begins, every parameter of every effect group is
/// visited in order.
pub open spec fn grant_visit(w: World, m: Marks, i: int) -> Marks {
    if m.powers[i].included {
        power_steps(w, m, i, w.powers[i].grants.len())
    } else {
        m
    }
}

/// The marks after the first `k` powers of the table were visited for their
/// grants, in the order of the table.
pub open spec fn grant_pass(w: World, m: Marks, k: nat) -> Marks
    decreases k,
{
    if k == 0 {
        m
    } else {
        grant_visit(w, grant_pass(w, m, (k - 1) as nat), k - 1)
    }
}

/// The marks have a place for every power and parameter of the world.
pub open spec fn shaped(w: World, m: Marks) -> bool {
    &&& m.cats.len() == w.names.cats.len()
    &&& m.sets.len() == w.names.sets.len()
    &&& m.powers.len() == w.names.powers.len()
    &&& m.powers.len() == w.powers.len()
    &&& forall|i: int|
        0 <= i < m.powers.len() ==> (#[trigger] m.powers[i]).params.len()
            == w.powers[i].grants.len()
    &&& forall|i: int, g: int|
        0 <= i < m.powers.len() && 0 <= g < m.powers[i].params.len() ==> (
        #[trigger] m.powers[i].params[g]).len() == w.powers[i].grants[g].len()
}

/// Replacing the marks of a parameter changes the number of parameters that
/// wait to be followed by what the replacement says.
pub proof fn lemma_set_param_pending(m: Marks, i: int, g: int, t: int, pm: ParamMarks)
    requires
        0 <= i < m.powers.len(),
        0 <= g < m.powers[i].params.len(),
        0 <= t < m.powers[i].params[g].len(),
    ensures
        pending_params(set_param(m, i, g, t, pm)) + (if m.powers[i].params[g][t].resolved {
            0nat
        } else {
            1nat
        }) == pending_params(m) + (if pm.resolved {
            0nat
        } else {
            1nat
        }),
        pending_redirects(set_param(m, i, g, t, pm)) == pending_redirects(m),
{
    let n = set_param(m, i, g, t, pm);
    let og = m.powers[i].params[g];
    let ng = n.powers[i].params[g];
    let term = |x: ParamMarks|
        if x.resolved {
            0nat
        } else {
            1nat
        };
    let og_terms = Seq::new(
        og.len(),
        |u: int|
            if og[u].resolved {
                0nat
            } else {
                1nat
            },
    );
    let ng_terms = Seq::new(
        ng.len(),
        |u: int|
            if ng[u].resolved {
                0nat
            } else {
                1nat
            },
    );
    assert(ng_terms =~= og_terms.update(t, term(pm)));
    lemma_sum_update(og_terms, t, term(pm));
    let op = m.powers[i];
    let np = n.powers[i];
    let op_terms = Seq::new(op.params.len(), |h: int| pending_in_group(op.params[h]));
    let np_terms = Seq::new(np.params.len(), |h: int| pending_in_group(np.params[h]));
    assert(np_terms =~= op_terms.update(g, pending_in_group(ng)));
    lemma_sum_update(op_terms, g, pending_in_group(ng));
    let o_terms = Seq::new(m.powers.len(), |k: int| pending_in_power(m.powers[k]));
    let n_terms = Seq::new(n.powers.len(), |k: int| pending_in_power(n.powers[k]));
    assert(n_terms =~= o_terms.update(i, pending_in_power(np)));
    lemma_sum_update(o_terms, i, pending_in_power(np));
    assert(Seq::new(
        n.powers.len(),
        |k: int|
            if n.powers[k].redirects_resolved {
                0nat
            } else {
                1nat
            },
    ) =~= Seq::new(
        m.powers.len(),
        |k: int|
            if m.powers[k].redirects_resolved {
                0nat
            } else {
                1nat
            },
    ));
}

/// Marking a power and replacing the marks of a parameter can be done in
/// either order.
pub proof fn lemma_mark_set_param(
    names: Names,
    m: Marks,
    target: Seq<char>,
    inherit: Seq<ArchetypeRef>,
    i: int,
    g: int,
    t: int,
    pm: ParamMarks,
)
    requires
        0 <= i < m.powers.len(),
    ensures
        mark(names, set_param(m, i, g, t, pm), target, inherit) == set_param(
            mark(names, m, target, inherit),
            i,
            g,
            t,
            pm,
        ),
{
    let a = mark(names, set_param(m, i, g, t, pm), target, inherit);
    let b = set_param(mark(names, m, target, inherit), i, g, t, pm);
    assert(a.cats =~= b.cats);
    assert(a.sets =~= b.sets);
    assert(a.powers =~= b.powers);
}

/// Marking powers and replacing the marks of a parameter can be done in
/// either order.
pub proof fn lemma_mark_each_set_param(
    names: Names,
    m: Marks,
    targets: Seq<Option<Seq<char>>>,
    inherit: Seq<ArchetypeRef>,
    i: int,
    g: int,
    t: int,
    pm: ParamMarks,
)
    requires
        0 <= i < m.powers.len(),
    ensures
        mark_each(names, set_param(m, i, g, t, pm), targets, inherit) == set_param(
            mark_each(names, m, targets, inherit),
            i,
            g,
            t,
            pm,
        ),
    decreases targets.len(),
{
    if targets.len() > 0 {
        lemma_mark_each_set_param(names, m, targets.drop_last(), inherit, i, g, t, pm);
        lemma_mark_each_keeps_latches(names, m, targets.drop_last(), inherit);
        match targets.last() {
            Some(target) => {
                lemma_mark_set_param(
                    names,
                    mark_each(names, m, targets.drop_last(), inherit),
                    target,
                    inherit,
                    i,
                    g,
                    t,
                    pm,
                );
            },
            None => {},
        }
    }
}

/// Replacing the marks of a parameter twice is replacing them by the second.
pub proof fn lemma_set_param_twice(m: Marks, i: int, g: int, t: int, a: ParamMarks, b: ParamMarks)
    requires
        0 <= i < m.powers.len(),
        0 <= g < m.powers[i].params.len(),
        0 <= t < m.powers[i].params[g].len(),
    ensures
        set_param(set_param(m, i, g, t, a), i, g, t, b) == set_param(m, i, g, t, b),
{
    let x = set_param(set_param(m, i, g, t, a), i, g, t, b);
    let y = set_param(m, i, g, t, b);
    assert(x.powers[i].params[g] =~= y.powers[i].params[g]);
    assert(x.powers[i].params =~= y.powers[i].params);
    assert(x.powers =~= y.powers);
}

/// The text of an optional reference to a key.
pub open spec fn opt_ref_text(key: Option<&NameKey>) -> Option<Seq<char>> {
    match key {
        Some(k) => Some(k@),
        None => None,
    }
}

/// The names of the powers that an entity definition grants: see
/// [`granted`].
pub fn granted_power_names(
    villain: &VillainDef,
    power_sets: &Keyed<BasePowerSet>,
    powers: &Keyed<BasePower>,
) -> (names: Vec<NameKey>)
    requires
        power_sets.wf(),
        powers.wf(),
    ensures
        texts(names@) == granted(
            power_sets.key_seq(),
            set_members(power_sets.value_seq()),
            powers.key_seq(),
            full_names(powers.value_seq()),
            villain.powers@,
        ),
{
    let ghost set_keys = power_sets.key_seq();
    let ghost members = set_members(power_sets.value_seq());
    let ghost power_keys = powers.key_seq();
    let ghost fulls = full_names(powers.value_seq());
    let mut names: Vec<NameKey> = Vec::new();
    let mut k: usize = 0;
    assert(texts(names@) =~= Seq::empty());
    assert(villain.powers@.take(0) =~= Seq::empty());
    while k < villain.powers.len()
        invariant
            k <= villain.powers.len(),
            power_sets.wf(),
            powers.wf(),
            set_keys == power_sets.key_seq(),
            members == set_members(power_sets.value_seq()),
            power_keys == powers.key_seq(),
            fulls == full_names(powers.value_seq()),
            texts(names@) == granted(
                set_keys,
                members,
                power_keys,
                fulls,
                villain.powers@.take(k as int),
            ),
        decreases villain.powers.len() - k,
    {
        let power_ref = &villain.powers[k];
        let ghost before = texts(names@);
        proof {
            assert(villain.powers@.take(k + 1).drop_last() =~= villain.powers@.take(k as int));
        }
        let set_name = power_ref.power_category.join(&power_ref.power_set);
        if power_ref.power.is_wildcard() {
            match power_sets.find(&set_name) {
                Some(s) => {
                    let listed = &power_sets.value(s).pp_power_names;
                    let mut j: usize = 0;
                    assert(texts(listed@).take(0) =~= Seq::empty());
                    assert(before + Seq::<Seq<char>>::empty() =~= before);
                    while j < listed.len()
                        invariant
                            j <= listed.len(),
                            texts(names@) == before + texts(listed@).take(j as int),
                        decreases listed.len() - j,
                    {
                        let ghost so_far = texts(names@);
                        names.push(listed[j].clone());
                        assert(texts(names@) =~= so_far.push(listed@[j as int]@));
                        assert(texts(listed@).take(j + 1) =~= texts(listed@).take(j as int).push(
                            listed@[j as int]@,
                        ));
                        j += 1;
                    }
                    assert(texts(listed@).take(listed.len() as int) =~= texts(listed@));
                },
                None => {
                    assert(before + Seq::<Seq<char>>::empty() =~= before);
                },
            }
        } else {
            let power_name = set_name.join(&power_ref.power);
            match powers.find(&power_name) {
                Some(p) => {
                    match &powers.value(p).pch_full_name {
                        Some(full) => {
                            names.push(full.clone());
                            assert(texts(names@) =~= before + seq![full@]);
                        },
                        None => {
                            assert(before + Seq::<Seq<char>>::empty() =~= before);
                        },
                    }
                },
                None => {
                    assert(before + Seq::<Seq<char>>::empty() =~= before);
                },
            }
        }
        k += 1;
    }
    assert(villain.powers@.take(villain.powers.len() as int) =~= villain.powers@);
    names
}

/// The archetype of an entity: see [`class_archetypes`].
pub fn class_archetypes_of(villain: &VillainDef, villain_archetypes: &Keyed<Archetype>) -> (list:
    Vec<ArchetypeRef>)
    requires
        villain_archetypes.wf(),
    ensures
        list@ == class_archetypes(villain_archetypes.key_seq(), *villain),
{
    let mut list: Vec<ArchetypeRef> = Vec::new();
    match &villain.character_class_name {
        Some(class_name) => {
            let key = class_name.prefixed('@');
            match villain_archetypes.find(&key) {
                Some(a) => {
                    list.push(ArchetypeRef { villain: true, index: a });
                    assert(list@ =~= seq![ArchetypeRef { villain: true, index: a }]);
                },
                None => {},
            }
        },
        None => {},
    }
    list
}

/// Marks each of the named powers for inclusion, but for those that are
/// the same key as `skip`.
pub fn mark_each_power(
    targets: &Vec<NameKey>,
    skip: Option<&NameKey>,
    archetypes: &Vec<ArchetypeRef>,
    power_cats: &mut Keyed<PowerCategory>,
    power_sets: &mut Keyed<BasePowerSet>,
    powers: &mut Keyed<BasePower>,
)
    requires
        old(power_cats).wf(),
        old(power_sets).wf(),
        old(powers).wf(),
    ensures
        final(power_cats).wf(),
        final(power_sets).wf(),
        final(powers).wf(),
        tables_frame(
            *old(power_cats),
            *old(power_sets),
            *old(powers),
            *final(power_cats),
            *final(power_sets),
            *final(powers),
        ),
        table_marks(*final(power_cats), *final(power_sets), *final(powers)) == mark_each(
            table_names(*old(power_cats), *old(power_sets), *old(powers)),
            table_marks(*old(power_cats), *old(power_sets), *old(powers)),
            others(texts(targets@), opt_ref_text(skip)),
            archetypes@,
        ),
{
    let ghost names = table_names(*old(power_cats), *old(power_sets), *old(powers));
    let ghost m0 = table_marks(*old(power_cats), *old(power_sets), *old(powers));
    let ghost to_mark = others(texts(targets@), opt_ref_text(skip));
    proof {
        lemma_frame_reflexive(
            old(power_cats).value_seq(),
            old(power_sets).value_seq(),
            old(powers).value_seq(),
        );
        assert(to_mark.take(0) =~= Seq::empty());
    }
    let mut k: usize = 0;
    while k < targets.len()
        invariant
            k <= targets.len(),
            power_cats.wf(),
            power_sets.wf(),
            powers.wf(),
            names == table_names(*old(power_cats), *old(power_sets), *old(powers)),
            to_mark == others(texts(targets@), opt_ref_text(skip)),
            tables_frame(
                *old(power_cats),
                *old(power_sets),
                *old(powers),
                *power_cats,
                *power_sets,
                *powers,
            ),
            table_marks(*power_cats, *power_sets, *powers) == mark_each(
                names,
                m0,
                to_mark.take(k as int),
                archetypes@,
            ),
        decreases targets.len() - k,
    {
        let ghost c1 = *power_cats;
        let ghost s1 = *power_sets;
        let ghost pw1 = *powers;
        proof {
            assert(to_mark.take(k + 1).drop_last() =~= to_mark.take(k as int));
            assert(texts(targets@)[k as int] == targets@[k as int]@);
        }
        let skipped = match skip {
            Some(own) => targets[k].eq_key(own),
            None => false,
        };
        if !skipped {
            mark_power_for_inclusion(&targets[k], archetypes, power_cats, power_sets, powers);
            proof {
                lemma_tables_frame_transitive(
                    *old(power_cats),
                    *old(power_sets),
                    *old(powers),
                    c1,
                    s1,
                    pw1,
                    *power_cats,
                    *power_sets,
                    *powers,
                );
            }
        }
        k += 1;
    }
    assert(to_mark.take(targets.len() as int) =~= to_mark);
}

/// Marks the powers that a parameter names to be included in the output,
/// but for the power that carries the parameter.
pub fn mark_powers_in_power_param(
    power_param: &AttribModParam_Power,
    current_power_name: &NameKey,
    archetypes: &Vec<ArchetypeRef>,
    power_cats: &mut Keyed<PowerCategory>,
    power_sets: &mut Keyed<BasePowerSet>,
    powers: &mut Keyed<BasePower>,
)
    requires
        old(power_cats).wf(),
        old(power_sets).wf(),
        old(powers).wf(),
    ensures
        final(power_cats).wf(),
        final(power_sets).wf(),
        final(powers).wf(),
        tables_frame(
            *old(power_cats),
            *old(power_sets),
            *old(powers),
            *final(power_cats),
            *final(power_sets),
            *final(powers),
        ),
        table_marks(*final(power_cats), *final(power_sets), *final(powers)) == mark_each(
            table_names(*old(power_cats), *old(power_sets), *old(powers)),
            table_marks(*old(power_cats), *old(power_sets), *old(powers)),
            others(texts(power_param.ppch_power_names@), Some(current_power_name@)),
            archetypes@,
        ),
{
    mark_each_power(
        &power_param.ppch_power_names,
        Some(current_power_name),
        archetypes,
        power_cats,
        power_sets,
        powers,
    );
}

/// Copies the names of the powers that the entity of `entcreate` is granted
/// into the parameter itself, behind those that it holds, and marks every
/// power of the list to be included, with the entity's class as the
/// archetype to inherit. A parameter without an entity definition, or with
/// one that the table of villains does not have, is left as it is, and
/// nothing is marked.
pub fn copy_powers_to_entcreate(
    entcreate: &mut AttribModParam_EntCreate,
    villains: &Keyed<VillainDef>,
    villain_archetypes: &Keyed<Archetype>,
    power_cats: &mut Keyed<PowerCategory>,
    power_sets: &mut Keyed<BasePowerSet>,
    powers: &mut Keyed<BasePower>,
)
    requires
        villains.wf(),
        villain_archetypes.wf(),
        old(power_cats).wf(),
        old(power_sets).wf(),
        old(powers).wf(),
    ensures
        final(power_cats).wf(),
        final(power_sets).wf(),
        final(powers).wf(),
        tables_frame(
            *old(power_cats),
            *old(power_sets),
            *old(powers),
            *final(power_cats),
            *final(power_sets),
            *final(powers),
        ),
        *final(entcreate) == (AttribModParam_EntCreate {
            power_refs: final(entcreate).power_refs,
            ..*old(entcreate)
        }),
        texts(final(entcreate).power_refs@) == entity_refs(
            world_of(*villains, *villain_archetypes, *old(power_cats), *old(power_sets), *old(powers)),
            texts(old(entcreate).power_refs@),
            old(entcreate).villain_def,
        ),
        table_marks(*final(power_cats), *final(power_sets), *final(powers)) == entity_marks(
            world_of(*villains, *villain_archetypes, *old(power_cats), *old(power_sets), *old(powers)),
            table_marks(*old(power_cats), *old(power_sets), *old(powers)),
            texts(old(entcreate).power_refs@),
            old(entcreate).villain_def,
        ),
{
    let ghost w = world_of(
        *villains,
        *villain_archetypes,
        *old(power_cats),
        *old(power_sets),
        *old(powers),
    );
    proof {
        lemma_frame_reflexive(
            old(power_cats).value_seq(),
            old(power_sets).value_seq(),
            old(powers).value_seq(),
        );
        assert(world_full_names(w) =~= full_names(old(powers).value_seq()));
    }
    match entcreate.villain_def {
        Some(v) => {
            if v < villains.len() {
                let villain_def = villains.value(v);
                let mut names = granted_power_names(villain_def, power_sets, powers);
                let ghost held = texts(entcreate.power_refs@);
                let ghost added = texts(names@);
                let mut k: usize = 0;
                assert(added.take(0) =~= Seq::empty());
                assert(held + Seq::<Seq<char>>::empty() =~= held);
                while k < names.len()
                    invariant
                        k <= names.len(),
                        added == texts(names@),
                        *entcreate == (AttribModParam_EntCreate {
                            power_refs: entcreate.power_refs,
                            ..*old(entcreate)
                        }),
                        texts(entcreate.power_refs@) == held + added.take(k as int),
                    decreases names.len() - k,
                {
                    let ghost so_far = texts(entcreate.power_refs@);
                    entcreate.power_refs.push(names[k].clone());
                    assert(texts(entcreate.power_refs@) =~= so_far.push(names@[k as int]@));
                    assert(added.take(k + 1) =~= added.take(k as int).push(names@[k as int]@));
                    k += 1;
                }
                assert(added.take(names.len() as int) =~= added);
                let archetypes = class_archetypes_of(villain_def, villain_archetypes);
                mark_each_power(
                    &entcreate.power_refs,
                    None,
                    &archetypes,
                    power_cats,
                    power_sets,
                    powers,
                );
            }
        },
        None => {},
    }
}

/// The list of granted powers of a parameter that spawns an entity, after
/// the names that the entity's definition grants were put behind those that
/// it held. A parameter that refers to no definition of the table keeps its
/// list.
pub open spec fn entity_refs(w: World, held: Seq<Seq<char>>, villain_def: Option<usize>) -> Seq<
    Seq<char>,
> {
    match villain_def {
        Some(v) => if v < w.villains.len() {
            held + granted_in(w, w.villains[v as int])
        } else {
            held
        },
        None => held,
    }
}

/// The marks after every power that an entity is granted was marked, with
/// the entity's class as the archetype to inherit.
pub open spec fn entity_marks(
    w: World,
    m: Marks,
    held: Seq<Seq<char>>,
    villain_def: Option<usize>,
) -> Marks {
    match villain_def {
        Some(v) => if v < w.villains.len() {
            mark_each(
                w.names,
                m,
                others(entity_refs(w, held, villain_def), None),
                class_archetypes(w.class_keys, w.villains[v as int]),
            )
        } else {
            m
        },
        None => m,
    }
}

/// A power is as it was, but for the parameter of effect `t` of group `g`,
/// which is `p`.
pub open spec fn slot_set(
    o: BasePower,
    n: BasePower,
    g: int,
    t: int,
    p: Option<AttribModParam>,
) -> bool {
    let og = o.pp_effects@[g];
    let ng = n.pp_effects@[g];
    &&& n == (BasePower { pp_effects: n.pp_effects, ..o })
    &&& n.pp_effects@.len() == o.pp_effects@.len()
    &&& forall|h: int|
        0 <= h < o.pp_effects@.len() && h != g ==> #[trigger] n.pp_effects@[h] == o.pp_effects@[h]
    &&& ng == (EffectGroup { pp_templates: ng.pp_templates, ..og })
    &&& ng.pp_templates@.len() == og.pp_templates@.len()
    &&& forall|u: int|
        0 <= u < og.pp_templates@.len() && u != t ==> #[trigger] ng.pp_templates@[u]
            == og.pp_templates@[u]
    &&& ng.pp_templates@[t] == (AttribModTemplate { p_params: p, ..og.pp_templates@[t] })
}

/// Puts a parameter in the place of the one that a power's effect carries,
/// and hands out the one that was there.
fn swap_param(
    powers: &mut Keyed<BasePower>,
    i: usize,
    g: usize,
    t: usize,
    p: Option<AttribModParam>,
) -> (was: Option<AttribModParam>)
    requires
        old(powers).wf(),
        i < old(powers).value_seq().len(),
        g < old(powers).value_seq()[i as int].pp_effects@.len(),
        t < old(powers).value_seq()[i as int].pp_effects@[g as int].pp_templates@.len(),
    ensures
        final(powers).wf(),
        was == old(powers).value_seq()[i as int].pp_effects@[g as int].pp_templates@[t as int].p_params,
        final(powers).key_seq() == old(powers).key_seq(),
        final(powers).value_seq().len() == old(powers).value_seq().len(),
        forall|k: int|
            0 <= k < old(powers).value_seq().len() && k != i ==> #[trigger] final(powers).value_seq()[k] == old(powers).value_seq()[k],
        slot_set(
            old(powers).value_seq()[i as int],
            final(powers).value_seq()[i as int],
            g as int,
            t as int,
            p,
        ),
{
    let power = powers.value_mut(i);
    let slot = &mut power.pp_effects[g].pp_templates[t].p_params;
    let was = slot.take();
    *slot = p;
    was
}

/// The marks of a power whose parameter was replaced.
pub proof fn lemma_slot_marks(o: BasePower, n: BasePower, g: int, t: int, p: Option<AttribModParam>)
    requires
        slot_set(o, n, g, t, p),
        0 <= g < o.pp_effects@.len(),
        0 <= t < o.pp_effects@[g].pp_templates@.len(),
    ensures
        power_marks(n) == (PowerMarks {
            params: power_marks(o).params.update(
                g,
                power_marks(o).params[g].update(t, param_marks(p)),
            ),
            ..power_marks(o)
        }),
{
    let want = power_marks(o).params.update(g, power_marks(o).params[g].update(t, param_marks(p)));
    assert(power_marks(n).params[g] =~= want[g]);
    assert(power_marks(n).params =~= want);
}

/// A parameter that was taken out of a power and put back with other marks
/// leaves the power framed.
pub proof fn lemma_slot_roundtrip(
    a: BasePower,
    b: BasePower,
    c: BasePower,
    d: BasePower,
    g: int,
    t: int,
    p: Option<AttribModParam>,
)
    requires
        0 <= g < a.pp_effects@.len(),
        0 <= t < a.pp_effects@[g].pp_templates@.len(),
        slot_set(a, b, g, t, None),
        power_frame(b, c),
        slot_set(c, d, g, t, p),
        param_frame(a.pp_effects@[g].pp_templates@[t].p_params, p),
    ensures
        power_frame(a, d),
{
    assert forall|h: int| 0 <= h < a.pp_effects@.len() implies group_frame(
        a.pp_effects@[h],
        #[trigger] d.pp_effects@[h],
    ) by {
        assert(group_frame(b.pp_effects@[h], c.pp_effects@[h]));
        let ag = a.pp_effects@[h];
        let bg = b.pp_effects@[h];
        let cg = c.pp_effects@[h];
        let dg = d.pp_effects@[h];
        assert forall|u: int| 0 <= u < ag.pp_templates@.len() implies template_frame(
            ag.pp_templates@[u],
            #[trigger] dg.pp_templates@[u],
        ) by {
            assert(template_frame(bg.pp_templates@[u], cg.pp_templates@[u]));
        }
    }
}

/// Replacing the marks of a parameter by themselves changes nothing.
pub proof fn lemma_set_param_same(m: Marks, i: int, g: int, t: int)
    requires
        0 <= i < m.powers.len(),
        0 <= g < m.powers[i].params.len(),
        0 <= t < m.powers[i].params[g].len(),
    ensures
        set_param(m, i, g, t, m.powers[i].params[g][t]) == m,
{
    let x = set_param(m, i, g, t, m.powers[i].params[g][t]);
    assert(x.powers[i].params[g] =~= m.powers[i].params[g]);
    assert(x.powers[i].params =~= m.powers[i].params);
    assert(x.powers =~= m.powers);
}

/// The marks of tables have a place for everything in the tables.
pub proof fn lemma_tables_shaped(
    villains: Keyed<VillainDef>,
    villain_archetypes: Keyed<Archetype>,
    cats: Keyed<PowerCategory>,
    sets: Keyed<BasePowerSet>,
    powers: Keyed<BasePower>,
)
    requires
        cats.key_seq().len() == cats.value_seq().len(),
        sets.key_seq().len() == sets.value_seq().len(),
        powers.key_seq().len() == powers.value_seq().len(),
    ensures
        shaped(
            world_of(villains, villain_archetypes, cats, sets, powers),
            table_marks(cats, sets, powers),
        ),
{
}

/// Visits one effect parameter of a power: see [`param_step`]. Returns
/// whether the parameter was followed.
pub fn resolve_param(
    i: usize,
    g: usize,
    t: usize,
    villains: &Keyed<VillainDef>,
    villain_archetypes: &Keyed<Archetype>,
    power_cats: &mut Keyed<PowerCategory>,
    power_sets: &mut Keyed<BasePowerSet>,
    powers: &mut Keyed<BasePower>,
) -> (done: bool)
    requires
        villains.wf(),
        villain_archetypes.wf(),
        old(power_cats).wf(),
        old(power_sets).wf(),
        old(powers).wf(),
        i < old(powers).value_seq().len(),
        g < old(powers).value_seq()[i as int].pp_effects@.len(),
        t < old(powers).value_seq()[i as int].pp_effects@[g as int].pp_templates@.len(),
    ensures
        final(power_cats).wf(),
        final(power_sets).wf(),
        final(powers).wf(),
        tables_frame(
            *old(power_cats),
            *old(power_sets),
            *old(powers),
            *final(power_cats),
            *final(power_sets),
            *final(powers),
        ),
        table_marks(*final(power_cats), *final(power_sets), *final(powers)) == param_step(
            world_of(*villains, *villain_archetypes, *old(power_cats), *old(power_sets), *old(powers)),
            table_marks(*old(power_cats), *old(power_sets), *old(powers)),
            i as int,
            g as int,
            t as int,
        ),
        done == param_due(
            table_marks(*old(power_cats), *old(power_sets), *old(powers)),
            i as int,
            g as int,
            t as int,
        ),
{
    let ghost w = world_of(
        *villains,
        *villain_archetypes,
        *old(power_cats),
        *old(power_sets),
        *old(powers),
    );
    let ghost m0 = table_marks(*old(power_cats), *old(power_sets), *old(powers));
    let ghost pw0 = *old(powers);
    let ghost slot0 = pw0.value_seq()[i as int].pp_effects@[g as int].pp_templates@[t as int].p_params;
    let ghost pm0 = m0.powers[i as int].params[g as int][t as int];
    let ghost ii = i as int;
    let ghost gg = g as int;
    let ghost tt = t as int;
    assert(pm0 == param_marks(slot0));
    assert(w.powers[ii].grants[gg][tt] == crate::marks::grant_def(slot0));
    let was = swap_param(powers, i, g, t, None);
    let ghost pw1 = *powers;
    let ghost m1 = table_marks(*power_cats, *power_sets, *powers);
    proof {
        lemma_frame_reflexive(
            old(power_cats).value_seq(),
            old(power_sets).value_seq(),
            old(powers).value_seq(),
        );
        lemma_slot_marks(pw0.value_seq()[ii], pw1.value_seq()[ii], gg, tt, None);
        assert(m1.powers =~= set_param(m0, ii, gg, tt, idle_param()).powers);
        assert(m1.cats =~= m0.cats);
        assert(m1.sets =~= m0.sets);
        assert(m1 == set_param(m0, ii, gg, tt, idle_param()));
    }
    let ghost w1 = world_of(*villains, *villain_archetypes, *power_cats, *power_sets, *powers);
    proof {
        assert(world_full_names(w1) =~= world_full_names(w));
        assert(full_names(pw1.value_seq()) =~= world_full_names(w));
        assert(w1.names == w.names);
        assert(w1.members == w.members);
    }
    let mut done = false;
    let back = match was {
        Some(AttribModParam::EntCreate(mut e)) => {
            if !e.resolved {
                let found = match &e.pch_entity_def {
                    Some(name) => villains.find(name),
                    None => None,
                };
                let ghost held = texts(e.power_refs@);
                match found {
                    Some(v) => {
                        e.villain_def = Some(v);
                        copy_powers_to_entcreate(
                            &mut e,
                            villains,
                            villain_archetypes,
                            power_cats,
                            power_sets,
                            powers,
                        );
                        proof {
                            let refs = held + granted_in(w, w.villains[v as int]);
                            assert(granted_in(w1, w1.villains[v as int]) == granted_in(
                                w,
                                w.villains[v as int],
                            ));
                            assert(texts(e.power_refs@) == refs);
                            let class = class_archetypes(w.class_keys, w.villains[v as int]);
                            let to_mark = others(refs, None);
                            let pm = ParamMarks {
                                resolved: true,
                                villain_def: Some(v),
                                power_refs: refs,
                            };
                            lemma_mark_each_set_param(
                                w.names,
                                m0,
                                to_mark,
                                class,
                                ii,
                                gg,
                                tt,
                                idle_param(),
                            );
                            lemma_mark_each_set_param(w.names, m0, to_mark, class, ii, gg, tt, pm);
                            lemma_mark_each_keeps_latches(w.names, m0, to_mark, class);
                            lemma_set_param_twice(
                                mark_each(w.names, m0, to_mark, class),
                                ii,
                                gg,
                                tt,
                                idle_param(),
                                pm,
                            );
                        }
                    },
                    None => {
                        proof {
                            let pm = ParamMarks { resolved: true, ..pm0 };
                            lemma_set_param_twice(m0, ii, gg, tt, idle_param(), pm);
                        }
                    },
                }
                e.resolved = true;
                done = true;
            } else {
                proof {
                    lemma_set_param_twice(m0, ii, gg, tt, idle_param(), pm0);
                    lemma_set_param_same(m0, ii, gg, tt);
                }
            }
            Some(AttribModParam::EntCreate(e))
        },
        Some(AttribModParam::Power(mut q)) => {
            if !q.resolved {
                let inherit = clone_refs(&powers.value(i).archetypes);
                let own_name = match &powers.value(i).pch_full_name {
                    Some(name) => Some(name.clone()),
                    None => None,
                };
                let skip: Option<&NameKey> = own_name.as_ref();
                mark_each_power(
                    &q.ppch_power_names,
                    skip,
                    &inherit,
                    power_cats,
                    power_sets,
                    powers,
                );
                proof {
                    let to_mark = others(texts(q.ppch_power_names@), w.powers[ii].full_name);
                    assert(opt_ref_text(skip) == w.powers[ii].full_name);
                    let pm = ParamMarks { resolved: true, ..pm0 };
                    lemma_mark_each_set_param(
                        w.names,
                        m0,
                        to_mark,
                        inherit@,
                        ii,
                        gg,
                        tt,
                        idle_param(),
                    );
                    lemma_mark_each_set_param(w.names, m0, to_mark, inherit@, ii, gg, tt, pm);
                    lemma_mark_each_keeps_latches(w.names, m0, to_mark, inherit@);
                    lemma_set_param_twice(
                        mark_each(w.names, m0, to_mark, inherit@),
                        ii,
                        gg,
                        tt,
                        idle_param(),
                        pm,
                    );
                }
                q.resolved = true;
                done = true;
            } else {
                proof {
                    lemma_set_param_twice(m0, ii, gg, tt, idle_param(), pm0);
                    lemma_set_param_same(m0, ii, gg, tt);
                }
            }
            Some(AttribModParam::Power(q))
        },
        other => {
            proof {
                lemma_set_param_twice(m0, ii, gg, tt, idle_param(), pm0);
                lemma_set_param_same(m0, ii, gg, tt);
            }
            other
        },
    };
    let ghost c2 = *power_cats;
    let ghost s2 = *power_sets;
    let ghost pw2 = *powers;
    let ghost m2 = table_marks(c2, s2, pw2);
    assert(tables_frame(*old(power_cats), *old(power_sets), pw1, c2, s2, pw2));
    swap_param(powers, i, g, t, back);
    proof {
        let pw3 = *powers;
        let m3 = table_marks(*power_cats, *power_sets, *powers);
        assert(power_frame(pw1.value_seq()[ii], pw2.value_seq()[ii]));
        lemma_slot_marks(pw2.value_seq()[ii], pw3.value_seq()[ii], gg, tt, back);
        assert(m3.powers =~= set_param(m2, ii, gg, tt, param_marks(back)).powers);
        assert(m3.cats =~= m2.cats);
        assert(m3.sets =~= m2.sets);
        assert(m3 == set_param(m2, ii, gg, tt, param_marks(back)));
        assert(param_frame(slot0, back));
        lemma_slot_roundtrip(
            pw0.value_seq()[ii],
            pw1.value_seq()[ii],
            pw2.value_seq()[ii],
            pw3.value_seq()[ii],
            gg,
            tt,
            back,
        );
        assert forall|k: int| 0 <= k < pw0.value_seq().len() implies power_frame(
            pw0.value_seq()[k],
            #[trigger] pw3.value_seq()[k],
        ) by {
            if k != ii {
                assert(power_frame(pw1.value_seq()[k], pw2.value_seq()[k]));
            }
        }
        assert(m3 == param_step(w, m0, ii, gg, tt));
    }
    done
}

/// Visiting a parameter that is due takes one from the number of parameters
/// that wait to be followed, and visiting another changes nothing of it.
pub proof fn lemma_param_step_pending(w: World, m: Marks, i: int, g: int, t: int)
    requires
        shaped(w, m),
        0 <= i < m.powers.len(),
        0 <= g < m.powers[i].params.len(),
        0 <= t < m.powers[i].params[g].len(),
    ensures
        pending_params(param_step(w, m, i, g, t)) + (if param_due(m, i, g, t) {
            1nat
        } else {
            0nat
        }) == pending_params(m),
        pending_redirects(param_step(w, m, i, g, t)) == pending_redirects(m),
{
    let pm = m.powers[i].params[g][t];
    if !pm.resolved {
        let latched = ParamMarks { resolved: true, ..pm };
        lemma_set_param_pending(m, i, g, t, latched);
        match w.powers[i].grants[g][t] {
            GrantDef::Entity(Some(name)) => {
                if has_key(w.villain_keys, name) {
                    let v = key_position(w.villain_keys, name);
                    let refs = pm.power_refs + granted_in(w, w.villains[v]);
                    let pm2 = ParamMarks {
                        resolved: true,
                        villain_def: Some(v as usize),
                        power_refs: refs,
                    };
                    lemma_set_param_pending(m, i, g, t, pm2);
                    lemma_mark_each_keeps_latches(
                        w.names,
                        set_param(m, i, g, t, pm2),
                        others(refs, None),
                        class_archetypes(w.class_keys, w.villains[v]),
                    );
                }
            },
            GrantDef::Entity(None) => {},
            GrantDef::Powers(names) => {
                lemma_mark_each_keeps_latches(
                    w.names,
                    set_param(m, i, g, t, latched),
                    others(names, w.powers[i].full_name),
                    m.powers[i].archetypes,
                );
            },
            GrantDef::Nothing => {},
        }
    }
}

/// Resolves the entity definitions and power grants of the effects of every
/// included power: each parameter that spawns an entity, or names powers,
/// and has not been followed is followed and latched. The powers are
/// visited once, in the order of the table. Returns the number of
/// parameters that were followed.
pub fn resolve_entity_defs_and_power_grants(
    villains: &Keyed<VillainDef>,
    villain_archetypes: &Keyed<Archetype>,
    power_cats: &mut Keyed<PowerCategory>,
    power_sets: &mut Keyed<BasePowerSet>,
    powers: &mut Keyed<BasePower>,
) -> (count_resolved: usize)
    requires
        villains.wf(),
        villain_archetypes.wf(),
        old(power_cats).wf(),
        old(power_sets).wf(),
        old(powers).wf(),
        pending_params(table_marks(*old(power_cats), *old(power_sets), *old(powers))) <= usize::MAX,
    ensures
        final(power_cats).wf(),
        final(power_sets).wf(),
        final(powers).wf(),
        tables_frame(
            *old(power_cats),
            *old(power_sets),
            *old(powers),
            *final(power_cats),
            *final(power_sets),
            *final(powers),
        ),
        table_marks(*final(power_cats), *final(power_sets), *final(powers)) == grant_pass(
            world_of(*villains, *villain_archetypes, *old(power_cats), *old(power_sets), *old(powers)),
            table_marks(*old(power_cats), *old(power_sets), *old(powers)),
            old(powers).value_seq().len(),
        ),
        count_resolved + pending_params(
            table_marks(*final(power_cats), *final(power_sets), *final(powers)),
        ) == pending_params(table_marks(*old(power_cats), *old(power_sets), *old(powers))),
        pending_redirects(table_marks(*final(power_cats), *final(power_sets), *final(powers)))
            == pending_redirects(table_marks(*old(power_cats), *old(power_sets), *old(powers))),
        // nothing that was included is excluded, and no latch is opened again
        crate::monotone::marks_grow(
            table_marks(*old(power_cats), *old(power_sets), *old(powers)),
            table_marks(*final(power_cats), *final(power_sets), *final(powers)),
        ),
        // the redirects of no power are latched
        crate::closure::same_redirect_latches(
            table_marks(*old(power_cats), *old(power_sets), *old(powers)),
            table_marks(*final(power_cats), *final(power_sets), *final(powers)),
        ),
        // where every parameter of every included power was followed
        // before, nothing is counted and no mark changes
        crate::monotone::grants_settled(
            table_marks(*old(power_cats), *old(power_sets), *old(powers)),
        ) ==> count_resolved == 0 && table_marks(
            *final(power_cats),
            *final(power_sets),
            *final(powers),
        ) == table_marks(*old(power_cats), *old(power_sets), *old(powers)),
{
    let ghost w = world_of(
        *villains,
        *villain_archetypes,
        *old(power_cats),
        *old(power_sets),
        *old(powers),
    );
    let ghost m0 = table_marks(*old(power_cats), *old(power_sets), *old(powers));
    let n = powers.len();
    let mut count_resolved: usize = 0;
    let mut i: usize = 0;
    proof {
        lemma_frame_reflexive(
            old(power_cats).value_seq(),
            old(power_sets).value_seq(),
            old(powers).value_seq(),
        );
        lemma_tables_shaped(*villains, *villain_archetypes, *power_cats, *power_sets, *powers);
        crate::monotone::law_grant_pass_only_grows(w, m0);
        crate::closure::lemma_grant_pass_keeps_redirect_latches(w, m0, w.powers.len());
        if crate::monotone::grants_settled(m0) {
            crate::monotone::law_settled_grants_are_left_alone(w, m0);
        }
    }
    while i < n
        invariant
            i <= n,
            n == powers.value_seq().len(),
            n == old(powers).value_seq().len(),
            villains.wf(),
            villain_archetypes.wf(),
            power_cats.wf(),
            power_sets.wf(),
            powers.wf(),
            w == world_of(
                *villains,
                *villain_archetypes,
                *old(power_cats),
                *old(power_sets),
                *old(powers),
            ),
            w == world_of(*villains, *villain_archetypes, *power_cats, *power_sets, *powers),
            m0 == table_marks(*old(power_cats), *old(power_sets), *old(powers)),
            pending_params(m0) <= usize::MAX,
            tables_frame(
                *old(power_cats),
                *old(power_sets),
                *old(powers),
                *power_cats,
                *power_sets,
                *powers,
            ),
            table_marks(*power_cats, *power_sets, *powers) == grant_pass(w, m0, i as nat),
            count_resolved + pending_params(table_marks(*power_cats, *power_sets, *powers))
                == pending_params(m0),
            pending_redirects(table_marks(*power_cats, *power_sets, *powers)) == pending_redirects(
                m0,
            ),
        decreases n - i,
    {
        let ghost m_power = table_marks(*power_cats, *power_sets, *powers);
        if powers.value(i).include_in_output {
            let groups = powers.value(i).pp_effects.len();
            let mut g: usize = 0;
            while g < groups
                invariant
                    g <= groups,
                    i < n,
                    n == powers.value_seq().len(),
                    n == old(powers).value_seq().len(),
                    groups == powers.value_seq()[i as int].pp_effects@.len(),
                    groups == w.powers[i as int].grants.len(),
                    villains.wf(),
                    villain_archetypes.wf(),
                    power_cats.wf(),
                    power_sets.wf(),
                    powers.wf(),
                    w == world_of(*villains, *villain_archetypes, *power_cats, *power_sets, *powers),
                    pending_params(m0) <= usize::MAX,
                    tables_frame(
                        *old(power_cats),
                        *old(power_sets),
                        *old(powers),
                        *power_cats,
                        *power_sets,
                        *powers,
                    ),
                    table_marks(*power_cats, *power_sets, *powers) == power_steps(
                        w,
                        m_power,
                        i as int,
                        g as nat,
                    ),
                    count_resolved + pending_params(table_marks(*power_cats, *power_sets, *powers))
                        == pending_params(m0),
                    pending_redirects(table_marks(*power_cats, *power_sets, *powers))
                        == pending_redirects(m0),
                decreases groups - g,
            {
                let ghost m_group = table_marks(*power_cats, *power_sets, *powers);
                let templates = powers.value(i).pp_effects[g].pp_templates.len();
                let mut t: usize = 0;
                while t < templates
                    invariant
                        t <= templates,
                        g < groups,
                        i < n,
                        n == powers.value_seq().len(),
                        n == old(powers).value_seq().len(),
                        groups == powers.value_seq()[i as int].pp_effects@.len(),
                        groups == w.powers[i as int].grants.len(),
                        templates == powers.value_seq()[i as int].pp_effects@[g as int].pp_templates@.len(),
                        templates == w.powers[i as int].grants[g as int].len(),
                        villains.wf(),
                        villain_archetypes.wf(),
                        power_cats.wf(),
                        power_sets.wf(),
                        powers.wf(),
                        w == world_of(
                            *villains,
                            *villain_archetypes,
                            *power_cats,
                            *power_sets,
                            *powers,
                        ),
                        pending_params(m0) <= usize::MAX,
                        tables_frame(
                            *old(power_cats),
                            *old(power_sets),
                            *old(powers),
                            *power_cats,
                            *power_sets,
                            *powers,
                        ),
                        table_marks(*power_cats, *power_sets, *powers) == group_steps(
                            w,
                            m_group,
                            i as int,
                            g as int,
                            t as nat,
                        ),
                        count_resolved + pending_params(
                            table_marks(*power_cats, *power_sets, *powers),
                        ) == pending_params(m0),
                        pending_redirects(table_marks(*power_cats, *power_sets, *powers))
                            == pending_redirects(m0),
                    decreases templates - t,
                {
                    let ghost c1 = *power_cats;
                    let ghost s1 = *power_sets;
                    let ghost pw1 = *powers;
                    proof {
                        lemma_tables_shaped(*villains, *villain_archetypes, c1, s1, pw1);
                        lemma_param_step_pending(
                            w,
                            table_marks(c1, s1, pw1),
                            i as int,
                            g as int,
                            t as int,
                        );
                    }
                    let done = resolve_param(
                        i,
                        g,
                        t,
                        villains,
                        villain_archetypes,
                        power_cats,
                        power_sets,
                        powers,
                    );
                    proof {
                        lemma_tables_frame_transitive(
                            *old(power_cats),
                            *old(power_sets),
                            *old(powers),
                            c1,
                            s1,
                            pw1,
                            *power_cats,
                            *power_sets,
                            *powers,
                        );
                        lemma_frame_keeps_defs(c1, s1, pw1, *power_cats, *power_sets, *powers);
                        assert(power_defs(powers.value_seq())[i as int] == w.powers[i as int]);
                    }
                    if done {
                        count_resolved += 1;
                    }
                    t += 1;
                }
                g += 1;
            }
        }
        i += 1;
    }
    count_resolved
}

} // verus!
