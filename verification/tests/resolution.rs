use powers_dict::grants::{
    copy_powers_to_entcreate, mark_powers_in_power_param, resolve_entity_defs_and_power_grants,
};
use powers_dict::keyed::Keyed;
use powers_dict::load::resolve_references;
use powers_dict::namekey::NameKey;
use powers_dict::resolve::{mark_power_for_inclusion, resolve_power_redirects};
use powers_dict::structs::{
    Archetype, ArchetypeRef, AttribModParam, AttribModParam_EntCreate, AttribModParam_Power,
    AttribModTemplate, BasePower, BasePowerSet, EffectGroup, PowerCategory, PowerNameRef,
    PowerRedirect, VillainDef,
};

fn key(s: &str) -> NameKey {
    NameKey::new(s)
}

fn category(name: &str) -> PowerCategory {
    let mut c = PowerCategory::new();
    c.pch_name = Some(key(name));
    c
}

fn power_set(full: &str, members: &[&str]) -> BasePowerSet {
    let mut s = BasePowerSet::new();
    s.pch_full_name = Some(key(full));
    for m in members {
        s.pp_power_names.push(key(m));
    }
    s
}

fn power(full: &str, redirects: &[&str]) -> BasePower {
    let mut p = BasePower::new();
    p.pch_full_name = Some(key(full));
    p.pch_name = Some(full.rsplit('.').next().unwrap().to_string());
    for r in redirects {
        let mut redirect = PowerRedirect::new();
        redirect.pch_name = Some(key(r));
        p.pp_redirect.push(redirect);
    }
    p
}

struct World {
    cats: Keyed<PowerCategory>,
    sets: Keyed<BasePowerSet>,
    powers: Keyed<BasePower>,
    villains: Keyed<VillainDef>,
    classes: Keyed<Archetype>,
}

fn world(cats: &[&str], sets: &[(&str, Vec<&str>)], powers: Vec<BasePower>) -> World {
    let mut w = World {
        cats: Keyed::new(),
        sets: Keyed::new(),
        powers: Keyed::new(),
        villains: Keyed::new(),
        classes: Keyed::new(),
    };
    for c in cats {
        w.cats.insert(key(c), category(c));
    }
    for (name, members) in sets {
        w.sets.insert(key(name), power_set(name, members));
    }
    for p in powers {
        let name = p.pch_full_name.as_ref().unwrap().to_string();
        w.powers.insert(key(&name), p);
    }
    w
}

fn included_power(w: &World, name: &str) -> bool {
    w.powers.get(&key(name)).unwrap().include_in_output
}

fn included_set(w: &World, name: &str) -> bool {
    w.sets.get(&key(name)).unwrap().include_in_output
}

fn included_cat(w: &World, name: &str) -> bool {
    w.cats.get(&key(name)).unwrap().include_in_output
}

#[test]
fn mark_includes_category_set_and_power() {
    let mut w = world(
        &["Pets", "Other"],
        &[("Pets.Wolf", vec!["Pets.Wolf.Bite"]), ("Other.Set", vec![])],
        vec![power("Pets.Wolf.Bite", &[]), power("Other.Set.Thing", &[])],
    );
    let at = vec![ArchetypeRef { villain: false, index: 3 }];
    mark_power_for_inclusion(&key("pets.WOLF.bite"), &at, &mut w.cats, &mut w.sets, &mut w.powers);
    assert!(included_cat(&w, "Pets"));
    assert!(included_set(&w, "Pets.Wolf"));
    assert!(included_power(&w, "Pets.Wolf.Bite"));
    assert!(!included_cat(&w, "Other"));
    assert!(!included_set(&w, "Other.Set"));
    assert!(!included_power(&w, "Other.Set.Thing"));
    assert_eq!(w.powers.get(&key("Pets.Wolf.Bite")).unwrap().archetypes, at);
}

#[test]
fn mark_tolerates_missing_levels() {
    let mut w = world(&["Pets"], &[], vec![power("Pets.Wolf.Bite", &[])]);
    mark_power_for_inclusion(&key("Pets.Wolf.Bite"), &vec![], &mut w.cats, &mut w.sets, &mut w.powers);
    assert!(included_cat(&w, "Pets"));
    assert!(included_power(&w, "Pets.Wolf.Bite"));
    // a power that does not exist still marks its category
    let mut w = world(&["Pets"], &[("Pets.Wolf", vec![])], vec![]);
    mark_power_for_inclusion(&key("Pets.Wolf.Howl"), &vec![], &mut w.cats, &mut w.sets, &mut w.powers);
    assert!(included_cat(&w, "Pets"));
    assert!(included_set(&w, "Pets.Wolf"));
}

#[test]
fn mark_merges_archetypes_without_duplicates() {
    let mut w = world(&[], &[], vec![power("A.B.C", &[])]);
    let first = ArchetypeRef { villain: false, index: 0 };
    let second = ArchetypeRef { villain: true, index: 0 };
    w.powers.value_mut(0).archetypes.push(first);
    mark_power_for_inclusion(
        &key("A.B.C"),
        &vec![second, first, second],
        &mut w.cats,
        &mut w.sets,
        &mut w.powers,
    );
    assert_eq!(w.powers.value(0).archetypes, vec![first, second]);
}

#[test]
fn redirect_to_missing_power_changes_nothing_else() {
    let mut source = power("A.B.Source", &["X.Y.Missing"]);
    source.include_in_output = true;
    let mut w = world(&["A"], &[("A.B", vec![])], vec![source, power("A.B.Other", &[])]);
    let count = resolve_power_redirects(&mut w.powers, &mut w.cats, &mut w.sets);
    assert_eq!(count, 1);
    assert!(included_power(&w, "A.B.Source"));
    assert!(w.powers.get(&key("A.B.Source")).unwrap().redirects_resolved);
    assert!(!included_power(&w, "A.B.Other"));
    assert!(!included_cat(&w, "A"));
    assert!(!included_set(&w, "A.B"));
}

#[test]
fn redirects_propagate_over_several_hops() {
    // the far power stands before the near one in its table, so that one pass
    // does not reach it
    let mut start = power("Start.Set.Power", &["First.Set.Near", "Second.Set.Other"]);
    start.include_in_output = true;
    start.archetypes.push(ArchetypeRef { villain: false, index: 7 });
    let mut w = world(
        &["Start", "First", "Second", "Third", "Unrelated"],
        &[
            ("Start.Set", vec![]),
            ("First.Set", vec![]),
            ("Second.Set", vec![]),
            ("Third.Set", vec![]),
            ("Unrelated.Set", vec![]),
        ],
        vec![
            power("Third.Set.Far", &[]),
            power("First.Set.Near", &["Third.Set.Far"]),
            power("Second.Set.Other", &[]),
            start,
            power("Unrelated.Set.Power", &[]),
        ],
    );
    let count = resolve_references(
        &w.villains,
        &w.classes,
        &mut w.cats,
        &mut w.sets,
        &mut w.powers,
    );
    assert_eq!(count, 4);
    for name in ["First.Set.Near", "Second.Set.Other", "Third.Set.Far"] {
        assert!(included_power(&w, name), "{}", name);
        assert_eq!(
            w.powers.get(&key(name)).unwrap().archetypes,
            vec![ArchetypeRef { villain: false, index: 7 }]
        );
    }
    for name in ["First", "Second", "Third"] {
        assert!(included_cat(&w, name), "{}", name);
    }
    for name in ["First.Set", "Second.Set", "Third.Set"] {
        assert!(included_set(&w, name), "{}", name);
    }
    assert!(!included_power(&w, "Unrelated.Set.Power"));
    assert!(!included_cat(&w, "Unrelated"));
    // the start's own category was never referred to
    assert!(!included_cat(&w, "Start"));
    // a second run finds nothing to do
    let again = resolve_references(
        &w.villains,
        &w.classes,
        &mut w.cats,
        &mut w.sets,
        &mut w.powers,
    );
    assert_eq!(again, 0);
}

#[test]
fn one_pass_follows_only_what_stands_behind() {
    let mut start = power("S.S.Start", &["S.S.Before", "S.S.After"]);
    start.include_in_output = true;
    let mut w = world(
        &[],
        &[],
        vec![
            power("S.S.Before", &["S.S.Deep1"]),
            start,
            power("S.S.After", &["S.S.Deep2"]),
            power("S.S.Deep1", &[]),
            power("S.S.Deep2", &[]),
        ],
    );
    let count = resolve_power_redirects(&mut w.powers, &mut w.cats, &mut w.sets);
    // the start, the power behind it, and what that one led to
    assert_eq!(count, 3);
    assert!(included_power(&w, "S.S.Before"));
    assert!(!w.powers.get(&key("S.S.Before")).unwrap().redirects_resolved);
    assert!(included_power(&w, "S.S.Deep2"));
    assert!(!included_power(&w, "S.S.Deep1"));
    let count = resolve_power_redirects(&mut w.powers, &mut w.cats, &mut w.sets);
    assert_eq!(count, 2);
    assert!(included_power(&w, "S.S.Deep1"));
    assert!(included_power(&w, "S.S.Deep1") && w.powers.value(3).redirects_resolved);
    assert_eq!(resolve_power_redirects(&mut w.powers, &mut w.cats, &mut w.sets), 0);
}

#[test]
fn self_redirect_is_harmless() {
    let mut own = power("A.B.C", &["A.B.C"]);
    own.include_in_output = true;
    own.archetypes.push(ArchetypeRef { villain: false, index: 1 });
    let mut w = world(&["A"], &[], vec![own]);
    assert_eq!(resolve_power_redirects(&mut w.powers, &mut w.cats, &mut w.sets), 1);
    assert_eq!(w.powers.value(0).archetypes, vec![ArchetypeRef { villain: false, index: 1 }]);
    assert!(included_cat(&w, "A"));
}

fn wolf_world() -> World {
    let mut w = world(
        &["Wolf_Powers", "Summoner"],
        &[
            ("Wolf_Powers.Melee", vec!["Wolf_Powers.Melee.Bite", "Wolf_Powers.Melee.Claw"]),
            ("Wolf_Powers.Other", vec!["Wolf_Powers.Other.Howl"]),
        ],
        vec![
            power("Wolf_Powers.Melee.Bite", &[]),
            power("Wolf_Powers.Melee.Claw", &[]),
            power("Wolf_Powers.Other.Howl", &[]),
        ],
    );
    let mut wolf = VillainDef::new();
    wolf.name = Some("Pet_Wolf".to_string());
    wolf.character_class_name = Some(key("Class_Minion_Pets"));
    wolf.powers.push(PowerNameRef {
        power_category: key("Wolf_Powers"),
        power_set: key("Melee"),
        power: key("*"),
    });
    w.villains.insert(key("Pet_Wolf"), wolf);
    let mut class = Archetype::new();
    class.pch_name = Some("Class_Minion_Pets".to_string());
    class.is_villain = true;
    w.classes.insert(key("@class_minion_pets"), class);
    w
}

#[test]
fn entcreate_wildcard_copies_every_power_of_the_set() {
    let mut w = wolf_world();
    let mut param = AttribModParam_EntCreate::new();
    param.pch_entity_def = Some(key("Pet_Wolf"));
    param.villain_def = w.villains.find(&key("pet_wolf"));
    copy_powers_to_entcreate(
        &mut param,
        &w.villains,
        &w.classes,
        &mut w.cats,
        &mut w.sets,
        &mut w.powers,
    );
    let names: Vec<String> = param.power_refs.iter().map(|k| k.to_string()).collect();
    assert_eq!(names, vec!["Wolf_Powers.Melee.Bite", "Wolf_Powers.Melee.Claw"]);
    assert!(included_power(&w, "Wolf_Powers.Melee.Bite"));
    assert!(included_power(&w, "Wolf_Powers.Melee.Claw"));
    assert!(!included_power(&w, "Wolf_Powers.Other.Howl"));
    assert!(included_set(&w, "Wolf_Powers.Melee"));
    assert!(!included_set(&w, "Wolf_Powers.Other"));
    assert!(included_cat(&w, "Wolf_Powers"));
    assert_eq!(
        w.powers.get(&key("Wolf_Powers.Melee.Bite")).unwrap().archetypes,
        vec![ArchetypeRef { villain: true, index: 0 }]
    );
}

#[test]
fn entcreate_named_power_copies_its_full_name() {
    let mut w = wolf_world();
    let mut named = VillainDef::new();
    named.powers.push(PowerNameRef {
        power_category: key("wolf_powers"),
        power_set: key("other"),
        power: key("howl"),
    });
    named.powers.push(PowerNameRef {
        power_category: key("wolf_powers"),
        power_set: key("other"),
        power: key("missing"),
    });
    w.villains.insert(key("Howler"), named);
    let mut param = AttribModParam_EntCreate::new();
    param.villain_def = w.villains.find(&key("Howler"));
    copy_powers_to_entcreate(
        &mut param,
        &w.villains,
        &w.classes,
        &mut w.cats,
        &mut w.sets,
        &mut w.powers,
    );
    let names: Vec<String> = param.power_refs.iter().map(|k| k.to_string()).collect();
    assert_eq!(names, vec!["Wolf_Powers.Other.Howl"]);
    assert!(included_power(&w, "Wolf_Powers.Other.Howl"));
    assert!(w.powers.get(&key("Wolf_Powers.Other.Howl")).unwrap().archetypes.is_empty());
}

fn with_param(mut p: BasePower, param: AttribModParam) -> BasePower {
    let mut template = AttribModTemplate::new();
    template.p_params = Some(param);
    let mut group = EffectGroup::new();
    group.pp_templates.push(AttribModTemplate::new());
    group.pp_templates.push(template);
    p.pp_effects.push(EffectGroup::new());
    p.pp_effects.push(group);
    p
}

#[test]
fn grants_resolve_entity_defs_of_included_powers() {
    let mut w = wolf_world();
    let mut param = AttribModParam_EntCreate::new();
    param.pch_entity_def = Some(key("pet_wolf"));
    let mut summon = with_param(power("Summoner.Set.Summon", &[]), AttribModParam::EntCreate(param));
    summon.include_in_output = true;
    w.powers.insert(key("Summoner.Set.Summon"), summon);
    let mut dangling = AttribModParam_EntCreate::new();
    dangling.pch_entity_def = Some(key("Nobody"));
    let mut other =
        with_param(power("Summoner.Set.Other", &[]), AttribModParam::EntCreate(dangling));
    other.include_in_output = true;
    w.powers.insert(key("Summoner.Set.Other"), other);
    let mut skipped = AttribModParam_EntCreate::new();
    skipped.pch_entity_def = Some(key("Pet_Wolf"));
    w.powers.insert(
        key("Summoner.Set.Excluded"),
        with_param(power("Summoner.Set.Excluded", &[]), AttribModParam::EntCreate(skipped)),
    );
    let count = resolve_entity_defs_and_power_grants(
        &w.villains,
        &w.classes,
        &mut w.cats,
        &mut w.sets,
        &mut w.powers,
    );
    assert_eq!(count, 2);
    let summon = w.powers.get(&key("Summoner.Set.Summon")).unwrap();
    match &summon.pp_effects[1].pp_templates[1].p_params {
        Some(AttribModParam::EntCreate(e)) => {
            assert!(e.resolved);
            assert_eq!(e.villain_def, Some(0));
            let names: Vec<String> = e.power_refs.iter().map(|k| k.to_string()).collect();
            assert_eq!(names, vec!["Wolf_Powers.Melee.Bite", "Wolf_Powers.Melee.Claw"]);
        }
        other => panic!("{:?}", other),
    }
    match &w.powers.get(&key("Summoner.Set.Other")).unwrap().pp_effects[1].pp_templates[1].p_params {
        Some(AttribModParam::EntCreate(e)) => {
            assert!(e.resolved);
            assert_eq!(e.villain_def, None);
            assert!(e.power_refs.is_empty());
        }
        other => panic!("{:?}", other),
    }
    match &w.powers.get(&key("Summoner.Set.Excluded")).unwrap().pp_effects[1].pp_templates[1].p_params {
        Some(AttribModParam::EntCreate(e)) => assert!(!e.resolved),
        other => panic!("{:?}", other),
    }
    assert!(included_power(&w, "Wolf_Powers.Melee.Bite"));
    assert!(included_power(&w, "Wolf_Powers.Melee.Claw"));
    assert!(!included_power(&w, "Wolf_Powers.Other.Howl"));
    let again = resolve_entity_defs_and_power_grants(
        &w.villains,
        &w.classes,
        &mut w.cats,
        &mut w.sets,
        &mut w.powers,
    );
    assert_eq!(again, 0);
}

#[test]
fn power_grants_skip_the_granting_power() {
    let mut w = wolf_world();
    let mut param = AttribModParam_Power::new();
    param.ppch_power_names.push(key("SUMMONER.set.granter"));
    param.ppch_power_names.push(key("Wolf_Powers.Other.Howl"));
    let mut granter = with_param(power("Summoner.Set.Granter", &[]), AttribModParam::Power(param));
    granter.include_in_output = true;
    granter.archetypes.push(ArchetypeRef { villain: false, index: 2 });
    w.powers.insert(key("Summoner.Set.Granter"), granter);
    let count = resolve_entity_defs_and_power_grants(
        &w.villains,
        &w.classes,
        &mut w.cats,
        &mut w.sets,
        &mut w.powers,
    );
    assert_eq!(count, 1);
    assert!(included_power(&w, "Wolf_Powers.Other.Howl"));
    assert_eq!(
        w.powers.get(&key("Wolf_Powers.Other.Howl")).unwrap().archetypes,
        vec![ArchetypeRef { villain: false, index: 2 }]
    );
    // the granter's own category is not marked by its own name
    assert!(!included_cat(&w, "Summoner"));
    assert!(included_cat(&w, "Wolf_Powers"));
}

#[test]
fn mark_powers_in_power_param_marks_all_but_current() {
    let mut w = wolf_world();
    let mut param = AttribModParam_Power::new();
    param.ppch_power_names.push(key("Wolf_Powers.Melee.Bite"));
    param.ppch_power_names.push(key("Wolf_Powers.Melee.Claw"));
    mark_powers_in_power_param(
        &param,
        &key("wolf_powers.melee.bite"),
        &vec![],
        &mut w.cats,
        &mut w.sets,
        &mut w.powers,
    );
    assert!(!included_power(&w, "Wolf_Powers.Melee.Bite"));
    assert!(included_power(&w, "Wolf_Powers.Melee.Claw"));
}

#[test]
fn nested_grants_and_redirects_reach_a_fixed_point() {
    let mut w = wolf_world();
    // the summoned wolf's bite redirects to the howl
    w.powers.insert(key("Wolf_Powers.Melee.Bite"), power("Wolf_Powers.Melee.Bite", &["Wolf_Powers.Other.Howl"]));
    let mut param = AttribModParam_EntCreate::new();
    param.pch_entity_def = Some(key("Pet_Wolf"));
    let mut summon = with_param(power("Summoner.Set.Summon", &[]), AttribModParam::EntCreate(param));
    summon.include_in_output = true;
    w.powers.insert(key("Summoner.Set.Summon"), summon);
    let count = resolve_references(
        &w.villains,
        &w.classes,
        &mut w.cats,
        &mut w.sets,
        &mut w.powers,
    );
    // one parameter, and the redirect lists of four included powers
    assert_eq!(count, 5);
    assert!(included_power(&w, "Wolf_Powers.Other.Howl"));
    assert!(included_set(&w, "Wolf_Powers.Other"));
    assert_eq!(
        w.powers.get(&key("Wolf_Powers.Other.Howl")).unwrap().archetypes,
        vec![ArchetypeRef { villain: true, index: 0 }]
    );
}

#[test]
fn resolution_never_excludes_and_never_reopens() {
    let mut start = power("A.Set.Start", &["B.Set.Next"]);
    start.include_in_output = true;
    let mut idle = power("C.Set.Idle", &["D.Set.Never"]);
    idle.redirects_resolved = true;
    idle.include_in_output = true;
    let mut w = world(
        &["A", "B", "C", "D"],
        &[("A.Set", vec![]), ("B.Set", vec![]), ("C.Set", vec![]), ("D.Set", vec![])],
        vec![start, power("B.Set.Next", &[]), idle, power("D.Set.Never", &[])],
    );
    w.cats.value_mut(2).include_in_output = true;
    w.sets.value_mut(3).include_in_output = true;
    resolve_references(&w.villains, &w.classes, &mut w.cats, &mut w.sets, &mut w.powers);
    // what was included is included, what was latched is latched
    assert!(included_power(&w, "A.Set.Start"));
    assert!(included_power(&w, "C.Set.Idle"));
    assert!(included_cat(&w, "C"));
    assert!(included_set(&w, "D.Set"));
    assert!(w.powers.value(2).redirects_resolved);
    // a list that was latched before is not followed again
    assert!(!included_power(&w, "D.Set.Never"));
    assert!(!included_cat(&w, "D"));
    assert!(included_power(&w, "B.Set.Next"));
}

/// A small generator of numbers that only depends on its seed.
struct Numbers(u64);

impl Numbers {
    fn next(&mut self, below: usize) -> usize {
        self.0 = self.0.wrapping_mul(6364136223846793005).wrapping_add(1442695040888963407);
        ((self.0 >> 33) as usize) % below
    }
}

#[test]
fn resolution_includes_exactly_what_is_reached() {
    for seed in 1..40u64 {
        let mut numbers = Numbers(seed);
        let n = 2 + numbers.next(14);
        let name = |i: usize| format!("Cat{}.Set{}.Power{}", i % 5, i % 7, i);
        let mut targets: Vec<Vec<usize>> = Vec::new();
        let mut powers = Vec::new();
        for i in 0..n {
            let mut list = Vec::new();
            for _ in 0..numbers.next(3) {
                // now and then a power that the table does not have
                list.push(numbers.next(n + 2));
            }
            let names: Vec<String> = list.iter().map(|t| name(*t)).collect();
            let refs: Vec<&str> = names.iter().map(|s| s.as_str()).collect();
            let mut p = power(&name(i), &refs);
            p.include_in_output = numbers.next(4) == 0;
            powers.push(p);
            targets.push(list);
        }
        let before: Vec<bool> = powers.iter().map(|p| p.include_in_output).collect();
        let mut w = world(&[], &[], powers);
        resolve_references(&w.villains, &w.classes, &mut w.cats, &mut w.sets, &mut w.powers);
        // what is reached from the powers that were included
        let mut reached = before.clone();
        loop {
            let mut grown = false;
            for i in 0..n {
                if reached[i] {
                    for t in &targets[i] {
                        if *t < n && !reached[*t] {
                            reached[*t] = true;
                            grown = true;
                        }
                    }
                }
            }
            if !grown {
                break;
            }
        }
        let after: Vec<bool> = w.powers.values().iter().map(|p| p.include_in_output).collect();
        assert_eq!(after, reached, "seed {}", seed);
        for i in 0..n {
            assert_eq!(w.powers.value(i).redirects_resolved, reached[i], "seed {}", seed);
        }
    }
}

#[test]
fn settled_passes_count_nothing() {
    let mut done = power("A.Set.Done", &["A.Set.Never"]);
    done.include_in_output = true;
    done.redirects_resolved = true;
    let mut param = AttribModParam_Power::new();
    param.ppch_power_names.push(key("A.Set.Never"));
    param.resolved = true;
    let done = with_param(done, AttribModParam::Power(param));
    // what is not included is left alone, whatever it holds
    let mut open_param = AttribModParam_EntCreate::new();
    open_param.pch_entity_def = Some(key("Pet_Wolf"));
    let waiting = with_param(power("A.Set.Waiting", &["A.Set.Never"]), AttribModParam::EntCreate(open_param));
    let mut w = wolf_world();
    w.powers.insert(key("A.Set.Done"), done);
    w.powers.insert(key("A.Set.Waiting"), waiting);
    w.powers.insert(key("A.Set.Never"), power("A.Set.Never", &[]));
    let granted = resolve_entity_defs_and_power_grants(
        &w.villains,
        &w.classes,
        &mut w.cats,
        &mut w.sets,
        &mut w.powers,
    );
    assert_eq!(granted, 0);
    assert_eq!(resolve_power_redirects(&mut w.powers, &mut w.cats, &mut w.sets), 0);
    assert!(!included_power(&w, "A.Set.Never"));
    assert!(!included_power(&w, "Wolf_Powers.Melee.Bite"));
    assert!(!w.powers.get(&key("A.Set.Waiting")).unwrap().redirects_resolved);
}
