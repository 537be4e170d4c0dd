use powers_dict::assemble::{
    filter_power_sets, is_filtered_out, is_listed, link_power_categories, link_power_sets,
    mark_top_level_categories, push_positions, LoadError,
};
use powers_dict::attribs::BoostAttrib;
use powers_dict::cascade::include_top_level;
use powers_dict::config::PowersConfig;
use powers_dict::enums::PowerType;
use powers_dict::fixups::{
    category_kind, fix_data_in_power_hierarchy, match_enh_categories_to_powers,
};
use powers_dict::keyed::Keyed;
use powers_dict::load::{load_powers_dictionary, PowerTables};
use powers_dict::matcher::{find_power_category, match_archetypes_to_power_categories};
use powers_dict::namekey::NameKey;
use powers_dict::structs::{
    Archetype, ArchetypeRef, AttribNames, BasePower, BasePowerSet, BoostSet, PowerCategory,
    PowerRedirect, PrimarySecondary,
};

fn key(s: &str) -> NameKey {
    NameKey::new(s)
}

fn category(name: &str, sets: &[&str]) -> PowerCategory {
    let mut c = PowerCategory::new();
    c.pch_name = Some(key(name));
    for s in sets {
        c.ppch_power_set_names.push(key(s));
    }
    c
}

fn power_set(full: &str, members: &[&str]) -> BasePowerSet {
    let mut s = BasePowerSet::new();
    s.pch_full_name = Some(key(full));
    s.pch_name = Some(full.rsplit('.').next().unwrap().to_string());
    for m in members {
        s.pp_power_names.push(key(m));
    }
    s
}

fn power(full: &str) -> BasePower {
    let mut p = BasePower::new();
    p.pch_full_name = Some(key(full));
    p.pch_name = Some(full.rsplit('.').next().unwrap().to_string());
    p
}

fn archetype(name: &str, primary: Option<&str>, secondary: Option<&str>) -> Archetype {
    let mut a = Archetype::new();
    a.pch_name = Some(name.to_string());
    a.pch_primary_category = primary.map(key);
    a.pch_secondary_category = secondary.map(key);
    a
}

fn cats_of(list: Vec<PowerCategory>) -> Keyed<PowerCategory> {
    let mut t = Keyed::new();
    for c in list {
        let name = c.pch_name.as_ref().unwrap().clone();
        t.insert(name, c);
    }
    t
}

fn sets_of(list: Vec<BasePowerSet>) -> Keyed<BasePowerSet> {
    let mut t = Keyed::new();
    for s in list {
        let name = s.pch_full_name.as_ref().unwrap().clone();
        t.insert(name, s);
    }
    t
}

fn powers_of(list: Vec<BasePower>) -> Keyed<BasePower> {
    let mut t = Keyed::new();
    for p in list {
        let name = p.pch_full_name.as_ref().unwrap().clone();
        t.insert(name, p);
    }
    t
}

fn archetypes_of(list: Vec<Archetype>) -> Keyed<Archetype> {
    let mut t = Keyed::new();
    for a in list {
        let name = key(a.pch_name.as_ref().unwrap());
        t.insert(name, a);
    }
    t
}

fn player(index: usize) -> ArchetypeRef {
    ArchetypeRef { villain: false, index }
}

#[test]
fn find_power_category_needs_a_name_and_a_record() {
    let cats = cats_of(vec![category("Blaster_Ranged", &[]), category("Pool", &[])]);
    assert_eq!(find_power_category(&cats, Some(&key("pool"))), Some(1));
    assert_eq!(find_power_category(&cats, Some(&key("Epic"))), None);
    assert_eq!(find_power_category(&cats, None), None);
}

#[test]
fn archetypes_are_matched_to_their_categories() {
    let mut blaster = archetype("Blaster", Some("Blaster_Ranged"), Some("Blaster_Support"));
    blaster.pch_epic_pool_category = Some(key("Epic"));
    blaster.pch_power_pool_category = Some(key("Pool"));
    let mut tanker = archetype("Tanker", Some("Tanker_Defense"), Some("Tanker_Melee"));
    tanker.pch_epic_pool_category = Some(key("Epic"));
    tanker.pch_power_pool_category = Some(key("POOL"));
    let archetypes = archetypes_of(vec![blaster, tanker]);
    let mut cats = cats_of(vec![
        category("Blaster_Ranged", &[]),
        category("Blaster_Support", &[]),
        category("Tanker_Melee", &[]),
        category("Pool", &[]),
        category("Inherent", &[]),
        category("Unmatched", &[]),
    ]);
    let mut config = PowersConfig::new();
    config.global_categories.push(key("Inherent"));
    config.global_categories.push(key("Missing"));
    match_archetypes_to_power_categories(&archetypes, &config, &mut cats);
    let of = |name: &str| cats.get(&key(name)).unwrap();
    assert_eq!(of("Blaster_Ranged").archetypes, vec![player(0)]);
    assert_eq!(of("Blaster_Ranged").pri_sec, PrimarySecondary::Primary);
    assert_eq!(of("Blaster_Support").archetypes, vec![player(0)]);
    assert_eq!(of("Blaster_Support").pri_sec, PrimarySecondary::Secondary);
    assert_eq!(of("Tanker_Melee").archetypes, vec![player(1)]);
    assert_eq!(of("Tanker_Melee").pri_sec, PrimarySecondary::Secondary);
    assert_eq!(of("Pool").archetypes, vec![player(0), player(1)]);
    assert_eq!(of("Pool").pri_sec, PrimarySecondary::Neither);
    assert_eq!(of("Inherent").archetypes, vec![player(0), player(1)]);
    assert_eq!(of("Inherent").pri_sec, PrimarySecondary::Neither);
    assert!(of("Unmatched").archetypes.is_empty());
    assert_eq!(of("Unmatched").pri_sec, PrimarySecondary::Neither);
}

#[test]
fn secondary_is_checked_after_primary() {
    let archetypes = archetypes_of(vec![archetype("Odd", Some("Same"), Some("same"))]);
    let mut cats = cats_of(vec![category("Same", &[])]);
    match_archetypes_to_power_categories(&archetypes, &PowersConfig::new(), &mut cats);
    let same = cats.value(0);
    // held once, and the role is that of the slot that was checked last
    assert_eq!(same.archetypes, vec![player(0)]);
    assert_eq!(same.pri_sec, PrimarySecondary::Secondary);
}

#[test]
fn an_archetype_is_held_once_by_a_category() {
    let mut twice = archetype("Twice", Some("Pool"), None);
    twice.pch_power_pool_category = Some(key("pool"));
    twice.pch_epic_pool_category = Some(key("Global"));
    let archetypes = archetypes_of(vec![twice, archetype("Other", None, Some("Pool"))]);
    let mut cats = cats_of(vec![category("Pool", &[]), category("Global", &[])]);
    let mut config = PowersConfig::new();
    config.global_categories.push(key("Global"));
    config.global_categories.push(key("GLOBAL"));
    match_archetypes_to_power_categories(&archetypes, &config, &mut cats);
    assert_eq!(cats.value(0).archetypes, vec![player(0), player(1)]);
    assert_eq!(cats.value(0).pri_sec, PrimarySecondary::Secondary);
    assert_eq!(cats.value(1).archetypes, vec![player(0), player(1)]);
    assert_eq!(cats.value(1).pri_sec, PrimarySecondary::Neither);
}

#[test]
fn names_are_listed_without_case() {
    let list = vec![key("Pool"), key("Epic")];
    assert!(is_listed(&list, &Some(key("epic"))));
    assert!(!is_listed(&list, &Some(key("Inherent"))));
    assert!(!is_listed(&list, &None));
    assert!(!is_listed(&vec![], &Some(key("Pool"))));
}

#[test]
fn an_empty_allow_list_keeps_every_category() {
    let mut cats = cats_of(vec![category("A", &[]), category("B", &[])]);
    let r = mark_top_level_categories(&mut cats, &PowersConfig::new());
    assert_eq!(r, Ok(2));
    assert!(cats.value(0).top_level && cats.value(1).top_level);
    let mut none: Keyed<PowerCategory> = Keyed::new();
    assert_eq!(mark_top_level_categories(&mut none, &PowersConfig::new()), Ok(0));
}

#[test]
fn an_allow_list_keeps_the_listed_categories() {
    let mut cats = cats_of(vec![category("A", &[]), category("B", &[]), category("C", &[])]);
    let mut config = PowersConfig::new();
    config.power_categories.push(key("c"));
    config.power_categories.push(key("a"));
    config.power_categories.push(key("Zed"));
    assert_eq!(mark_top_level_categories(&mut cats, &config), Ok(2));
    assert!(cats.value(0).top_level);
    assert!(!cats.value(1).top_level);
    assert!(cats.value(2).top_level);
}

#[test]
fn an_allow_list_that_matches_nothing_is_an_error() {
    let mut cats = cats_of(vec![category("A", &[]), category("B", &[])]);
    let mut config = PowersConfig::new();
    config.power_categories.push(key("Zed"));
    let r = mark_top_level_categories(&mut cats, &config);
    assert_eq!(r, Err(LoadError::NoTopLevelCategories));
    assert!(!cats.value(0).top_level && !cats.value(1).top_level);
    assert_eq!(
        LoadError::NoTopLevelCategories.message(),
        "No power categories to work on. Did you filter them all?"
    );
}

#[test]
fn power_sets_are_filtered_by_pattern() {
    let filters = vec![key("Villain_Pets"), key("*.Test")];
    assert!(is_filtered_out(&filters, &key("villain_pets.Wolves")));
    assert!(is_filtered_out(&filters, &key("Blaster_Ranged.Test")));
    assert!(!is_filtered_out(&filters, &key("Blaster_Ranged.Fire_Blast")));
    assert!(!is_filtered_out(&vec![], &key("Blaster_Ranged.Fire_Blast")));
    let mut sets = sets_of(vec![
        power_set("Villain_Pets.Wolves", &[]),
        power_set("Blaster_Ranged.Fire_Blast", &[]),
        power_set("Blaster_Ranged.Test", &[]),
        power_set("Pool.Flight", &[]),
        power_set("Villain_Pets.Bats", &[]),
    ]);
    filter_power_sets(&mut sets, &filters);
    assert_eq!(sets.len(), 2);
    assert_eq!(sets.key(0).to_string(), "Blaster_Ranged.Fire_Blast");
    assert_eq!(sets.key(1).to_string(), "Pool.Flight");
    assert_eq!(sets.value(1).pch_name.as_deref(), Some("Flight"));
    assert_eq!(sets.find(&key("pool.flight")), Some(1));
    filter_power_sets(&mut sets, &vec![key("*")]);
    assert_eq!(sets.len(), 0);
}

#[test]
fn positions_are_pushed_for_the_names_that_are_found() {
    let powers = powers_of(vec![power("A.B.One"), power("A.B.Two"), power("A.B.Three")]);
    let mut into = vec![9];
    push_positions(&powers, &vec![key("a.b.three"), key("A.B.None"), key("A.B.One"), key("A.B.Three")], &mut into);
    assert_eq!(into, vec![9, 2, 0, 2]);
}

#[test]
fn sets_and_categories_are_linked_by_name() {
    let powers = powers_of(vec![power("A.B.One"), power("A.C.Two"), power("A.B.Three")]);
    let mut sets = sets_of(vec![
        power_set("A.B", &["A.B.One", "A.B.Gone", "A.B.Three"]),
        power_set("A.C", &["a.c.two"]),
        power_set("A.D", &[]),
    ]);
    link_power_sets(&mut sets, &powers);
    assert_eq!(sets.value(0).pp_powers, vec![0, 2]);
    assert_eq!(sets.value(1).pp_powers, vec![1]);
    assert!(sets.value(2).pp_powers.is_empty());
    let mut cats = cats_of(vec![category("A", &["A.D", "A.Missing", "A.B"]), category("Z", &[])]);
    link_power_categories(&mut cats, &sets);
    assert_eq!(cats.value(0).pp_power_sets, vec![2, 0]);
    assert!(cats.value(1).pp_power_sets.is_empty());
}

struct Linked {
    cats: Keyed<PowerCategory>,
    sets: Keyed<BasePowerSet>,
    powers: Keyed<BasePower>,
}

fn linked() -> Linked {
    let powers = powers_of(vec![
        power("Top.Full.One"),
        power("Top.Full.Two"),
        power("Low.Set.Three"),
        power("Both.Set.Shared"),
    ]);
    let mut sets = sets_of(vec![
        power_set("Top.Full", &["Top.Full.One", "Top.Full.Two", "Both.Set.Shared"]),
        power_set("Top.Empty", &["Top.Empty.Gone"]),
        power_set("Low.Set", &["Low.Set.Three"]),
        power_set("Both.Set", &["Both.Set.Shared"]),
    ]);
    link_power_sets(&mut sets, &powers);
    let mut cats = cats_of(vec![
        category("Top", &["Top.Full", "Top.Empty"]),
        category("Low", &["Low.Set"]),
        category("Hollow", &["Top.Empty"]),
        category("Both", &["Both.Set"]),
    ]);
    link_power_categories(&mut cats, &sets);
    Linked { cats, sets, powers }
}

#[test]
fn top_level_categories_include_what_they_hold() {
    let mut w = linked();
    w.cats.value_mut(0).top_level = true;
    w.cats.value_mut(0).archetypes.push(player(4));
    w.cats.value_mut(2).top_level = true;
    w.cats.value_mut(3).top_level = true;
    w.cats.value_mut(3).archetypes.push(player(5));
    w.powers.value_mut(0).archetypes.push(player(9));
    // left from an earlier run; the cascade decides anew for what it touches
    w.sets.value_mut(1).include_in_output = true;
    w.sets.value_mut(2).include_in_output = true;
    include_top_level(&mut w.cats, &mut w.sets, &mut w.powers);
    let power = |i: usize| w.powers.value(i);
    assert!(power(0).include_in_output && power(1).include_in_output);
    assert_eq!(power(0).archetypes, vec![player(4)]);
    assert_eq!(power(1).archetypes, vec![player(4)]);
    assert!(!power(2).include_in_output);
    assert!(power(2).archetypes.is_empty());
    // the last top-level category that holds the power gives its archetypes
    assert!(power(3).include_in_output);
    assert_eq!(power(3).archetypes, vec![player(5)]);
    assert!(w.sets.value(0).include_in_output);
    assert!(!w.sets.value(1).include_in_output);
    assert!(w.sets.value(2).include_in_output);
    assert!(w.sets.value(3).include_in_output);
    assert!(w.cats.value(0).include_in_output && w.cats.value(0).top_level);
    assert!(!w.cats.value(1).include_in_output && !w.cats.value(1).top_level);
    // a category without a power is taken from the top level
    assert!(!w.cats.value(2).include_in_output && !w.cats.value(2).top_level);
    assert!(w.cats.value(3).include_in_output && w.cats.value(3).top_level);
}

#[test]
fn enhancement_categories_are_tagged_once() {
    let mut powers = powers_of(vec![power("A.B.One"), power("A.B.Two")]);
    powers.value_mut(0).enhancement_set_categories_allowed.push("Ranged Damage".to_string());
    let mut boosts: Keyed<BoostSet> = Keyed::new();
    let mut first = BoostSet::new();
    first.pch_group_name = Some("Ranged Damage".to_string());
    first.ppch_powers = vec![key("a.b.one"), key("A.B.Two"), key("A.B.Gone"), key("A.B.Two")];
    boosts.insert(key("Thunderstrike"), first);
    let mut second = BoostSet::new();
    second.pch_group_name = Some("Accurate Defense Debuff".to_string());
    second.ppch_powers = vec![key("A.B.Two")];
    boosts.insert(key("Shield_Breaker"), second);
    let mut unnamed = BoostSet::new();
    unnamed.ppch_powers = vec![key("A.B.One")];
    boosts.insert(key("Unnamed"), unnamed);
    match_enh_categories_to_powers(&boosts, &mut powers);
    assert_eq!(powers.value(0).enhancement_set_categories_allowed, vec!["Ranged Damage"]);
    assert_eq!(
        powers.value(1).enhancement_set_categories_allowed,
        vec!["Ranged Damage", "Accurate Defense Debuff"]
    );
}

#[test]
fn category_names_tell_the_kind() {
    let k = category_kind(&Some(key("prestige")));
    assert!(k.prestige && !k.inherent && !k.incarnate && !k.temporary);
    let k = category_kind(&Some(key("Temporary_Powers")));
    assert!(k.temporary && !k.prestige);
    let k = category_kind(&Some(key("Inherent")));
    assert!(k.inherent);
    let k = category_kind(&Some(key("INCARNATE")));
    assert!(k.incarnate);
    let k = category_kind(&Some(key("Temporary Powers")));
    assert!(!k.temporary && !k.prestige && !k.inherent && !k.incarnate);
    let k = category_kind(&None);
    assert!(!k.temporary && !k.prestige && !k.inherent && !k.incarnate);
}

fn one_category(name: &str, top_level: bool, power: BasePower) -> Linked {
    let full = power.pch_full_name.as_ref().unwrap().to_string();
    let set_name = format!("{}.Set", name);
    let powers = powers_of(vec![power]);
    let mut sets = sets_of(vec![power_set(&set_name, &[&full])]);
    link_power_sets(&mut sets, &powers);
    let mut cats = cats_of(vec![category(name, &[&set_name])]);
    link_power_categories(&mut cats, &sets);
    cats.value_mut(0).top_level = top_level;
    Linked { cats, sets, powers }
}

fn boosted(full: &str, e_type: PowerType) -> BasePower {
    let mut p = power(full);
    p.e_type = e_type;
    p.i_max_boosts = 5;
    p.i_force_level_bought = 3;
    p.pe_boosts_allowed.push(BoostAttrib(5));
    p
}

#[test]
fn temporary_powers_take_no_enhancements() {
    let jetpack = boosted("Temporary_Powers.Set.Jetpack", PowerType::kPowerType_Click);
    let mut w = one_category("Temporary_Powers", true, jetpack);
    fix_data_in_power_hierarchy(&w.cats, &w.sets, &mut w.powers);
    let p = w.powers.value(0);
    assert!(p.b_free);
    assert_eq!(p.i_max_boosts, 0);
    assert!(p.pe_boosts_allowed.is_empty());
    assert!(!p.b_auto_issue);
    assert_eq!(p.i_force_level_bought, 3);
}

#[test]
fn temporary_enhancements_keep_their_boost_types() {
    for e_type in [PowerType::kPowerType_Boost, PowerType::kPowerType_GlobalBoost] {
        let mut w = one_category("Temporary_Powers", true, boosted("Temporary_Powers.Set.Boost", e_type));
        fix_data_in_power_hierarchy(&w.cats, &w.sets, &mut w.powers);
        let p = w.powers.value(0);
        assert!(p.b_free);
        assert_eq!(p.i_max_boosts, 0);
        assert_eq!(p.pe_boosts_allowed.len(), 1);
    }
}

#[test]
fn prestige_inherent_and_incarnate_powers_are_free() {
    let mut w = one_category("Prestige", true, boosted("Prestige.Set.Sprint", PowerType::kPowerType_Toggle));
    fix_data_in_power_hierarchy(&w.cats, &w.sets, &mut w.powers);
    let p = w.powers.value(0);
    assert!(p.b_free && !p.b_auto_issue);
    assert_eq!(p.i_force_level_bought, 0);
    assert_eq!(p.i_max_boosts, 5);
    assert_eq!(p.pe_boosts_allowed.len(), 1);

    let mut w = one_category("Inherent", true, boosted("Inherent.Set.Rest", PowerType::kPowerType_Click));
    fix_data_in_power_hierarchy(&w.cats, &w.sets, &mut w.powers);
    let p = w.powers.value(0);
    assert!(p.b_free && p.b_auto_issue);
    assert_eq!(p.i_force_level_bought, 3);

    let mut w = one_category("Incarnate", true, boosted("Incarnate.Set.Lore", PowerType::kPowerType_Click));
    fix_data_in_power_hierarchy(&w.cats, &w.sets, &mut w.powers);
    let p = w.powers.value(0);
    assert!(p.b_free && !p.b_auto_issue);
    assert_eq!(p.i_force_level_bought, 3);

    // a power of the name counts as inherent in any category
    let mut w = one_category("Pool", true, boosted("Pool.Set.Inherent", PowerType::kPowerType_Click));
    fix_data_in_power_hierarchy(&w.cats, &w.sets, &mut w.powers);
    assert!(w.powers.value(0).b_free && w.powers.value(0).b_auto_issue);
    assert_eq!(w.powers.value(0).i_force_level_bought, 3);
    // the rules hold each by itself: in the prestige category the power is
    // bought at level zero as well
    let mut w = one_category("Prestige", true, boosted("Prestige.Set.Inherent", PowerType::kPowerType_Click));
    fix_data_in_power_hierarchy(&w.cats, &w.sets, &mut w.powers);
    assert!(w.powers.value(0).b_free && w.powers.value(0).b_auto_issue);
    assert_eq!(w.powers.value(0).i_force_level_bought, 0);
    assert_eq!(w.powers.value(0).i_max_boosts, 5);
}

#[test]
fn fixups_leave_other_powers_alone() {
    let mut w = one_category("Pool", true, boosted("Pool.Set.Fly", PowerType::kPowerType_Toggle));
    fix_data_in_power_hierarchy(&w.cats, &w.sets, &mut w.powers);
    let p = w.powers.value(0);
    assert!(!p.b_free && !p.b_auto_issue);
    assert_eq!((p.i_max_boosts, p.i_force_level_bought, p.pe_boosts_allowed.len()), (5, 3, 1));
    // a category that is not at the top level sets nothing right
    let mut w = one_category("Temporary_Powers", false, boosted("Temporary_Powers.Set.Jetpack", PowerType::kPowerType_Click));
    fix_data_in_power_hierarchy(&w.cats, &w.sets, &mut w.powers);
    let p = w.powers.value(0);
    assert!(!p.b_free);
    assert_eq!((p.i_max_boosts, p.pe_boosts_allowed.len()), (5, 1));
}

fn tables() -> PowerTables {
    let mut redirecting = power("Blaster_Ranged.Fire_Blast.Flares");
    let mut redirect = PowerRedirect::new();
    redirect.pch_name = Some(key("Redirects.Fire_Blast.Flares_Fast"));
    redirecting.pp_redirect.push(redirect);
    PowerTables {
        attrib_names: AttribNames::new(),
        archetypes: archetypes_of(vec![archetype("Blaster", Some("Blaster_Ranged"), None)]),
        boost_sets: Keyed::new(),
        villain_archetypes: Keyed::new(),
        villains: Keyed::new(),
        power_categories: cats_of(vec![
            category("Blaster_Ranged", &["Blaster_Ranged.Fire_Blast", "Blaster_Ranged.Filtered"]),
            category("Redirects", &["Redirects.Fire_Blast"]),
            category("Temporary_Powers", &["Temporary_Powers.Temporary_Powers"]),
            category("Empty", &["Empty.Nothing"]),
        ]),
        power_sets: sets_of(vec![
            power_set("Blaster_Ranged.Fire_Blast", &["Blaster_Ranged.Fire_Blast.Flares"]),
            power_set("Blaster_Ranged.Filtered", &["Blaster_Ranged.Filtered.Thing"]),
            power_set("Redirects.Fire_Blast", &["Redirects.Fire_Blast.Flares_Fast", "Redirects.Fire_Blast.Unused"]),
            power_set("Temporary_Powers.Temporary_Powers", &["Temporary_Powers.Temporary_Powers.Jetpack"]),
            power_set("Empty.Nothing", &["Empty.Nothing.Gone"]),
        ]),
        powers: powers_of(vec![
            redirecting,
            power("Blaster_Ranged.Filtered.Thing"),
            power("Redirects.Fire_Blast.Flares_Fast"),
            power("Redirects.Fire_Blast.Unused"),
            boosted("Temporary_Powers.Temporary_Powers.Jetpack", PowerType::kPowerType_Click),
        ]),
    }
}

#[test]
fn without_an_allow_list_every_category_with_a_power_is_top_level() {
    let dict = load_powers_dictionary(&PowersConfig::new(), tables()).ok().unwrap();
    let cat = |name: &str| dict.power_categories.get(&key(name)).unwrap();
    assert!(cat("Blaster_Ranged").top_level && cat("Blaster_Ranged").include_in_output);
    assert!(cat("Redirects").top_level && cat("Redirects").include_in_output);
    assert!(cat("Temporary_Powers").top_level);
    assert!(!cat("Empty").top_level && !cat("Empty").include_in_output);
    assert!(dict.powers.values().iter().all(|p| p.include_in_output));
    assert_eq!(cat("Blaster_Ranged").pri_sec, PrimarySecondary::Primary);
    assert_eq!(cat("Blaster_Ranged").archetypes, vec![player(0)]);
    assert_eq!(cat("Blaster_Ranged").pp_power_sets, vec![0, 1]);
    assert_eq!(dict.powers.value(0).archetypes, vec![player(0)]);
    let jetpack = dict.powers.get(&key("Temporary_Powers.Temporary_Powers.Jetpack")).unwrap();
    assert!(jetpack.b_free);
    assert_eq!(jetpack.i_max_boosts, 0);
    assert!(jetpack.pe_boosts_allowed.is_empty());
}

#[test]
fn with_an_allow_list_only_listed_categories_are_top_level() {
    let mut config = PowersConfig::new();
    config.power_categories.push(key("blaster_ranged"));
    config.power_categories.push(key("Empty"));
    config.filter_powersets.push(key("*.Filtered"));
    let dict = load_powers_dictionary(&config, tables()).ok().unwrap();
    let cat = |name: &str| dict.power_categories.get(&key(name)).unwrap();
    assert!(cat("Blaster_Ranged").top_level && cat("Blaster_Ranged").include_in_output);
    // reached by a redirect: included, but not at the top level
    assert!(!cat("Redirects").top_level && cat("Redirects").include_in_output);
    assert!(!cat("Temporary_Powers").top_level && !cat("Temporary_Powers").include_in_output);
    // listed, but without a power
    assert!(!cat("Empty").top_level && !cat("Empty").include_in_output);
    assert_eq!(dict.power_sets.len(), 4);
    assert!(dict.power_sets.get(&key("Blaster_Ranged.Filtered")).is_none());
    assert_eq!(cat("Blaster_Ranged").pp_power_sets, vec![0]);
    let power = |name: &str| dict.powers.get(&key(name)).unwrap();
    assert!(power("Blaster_Ranged.Fire_Blast.Flares").include_in_output);
    assert!(power("Blaster_Ranged.Fire_Blast.Flares").redirects_resolved);
    assert!(power("Redirects.Fire_Blast.Flares_Fast").include_in_output);
    assert_eq!(power("Redirects.Fire_Blast.Flares_Fast").archetypes, vec![player(0)]);
    assert!(!power("Redirects.Fire_Blast.Unused").include_in_output);
    assert!(!power("Blaster_Ranged.Filtered.Thing").include_in_output);
    // the fix-ups are for top-level categories only
    let jetpack = power("Temporary_Powers.Temporary_Powers.Jetpack");
    assert!(!jetpack.b_free);
    assert_eq!(jetpack.i_max_boosts, 5);
    assert!(dict.power_sets.get(&key("Redirects.Fire_Blast")).unwrap().include_in_output);
}

#[test]
fn an_allow_list_without_a_match_stops_the_merge() {
    let mut config = PowersConfig::new();
    config.power_categories.push(key("Nothing_Like_It"));
    assert_eq!(load_powers_dictionary(&config, tables()).err(), Some(LoadError::NoTopLevelCategories));
}

#[test]
fn merged_references_are_in_range() {
    let mut config = PowersConfig::new();
    config.filter_powersets.push(key("*.Filtered"));
    config.global_categories.push(key("Redirects"));
    let dict = load_powers_dictionary(&config, tables()).ok().unwrap();
    let classes = dict.archetypes.len();
    for cat in dict.power_categories.values() {
        assert!(cat.archetypes.iter().all(|a| !a.villain && a.index < classes));
        assert!(cat.pp_power_sets.iter().all(|s| *s < dict.power_sets.len()));
    }
    for set in dict.power_sets.values() {
        assert!(set.pp_powers.iter().all(|p| *p < dict.powers.len()));
    }
    for power in dict.powers.values() {
        assert!(power.archetypes.iter().all(|a| !a.villain && a.index < classes));
    }
    // the one archetype is held once by the category that it names and by
    // the global category
    assert_eq!(dict.power_categories.value(0).archetypes, vec![player(0)]);
    assert_eq!(dict.power_categories.value(1).archetypes, vec![player(0)]);
}

#[test]
fn a_kept_category_includes_what_it_holds() {
    let dict = load_powers_dictionary(&PowersConfig::new(), tables()).ok().unwrap();
    for cat in dict.power_categories.values() {
        for s in &cat.pp_power_sets {
            let set = dict.power_sets.value(*s);
            assert_eq!(set.include_in_output, !set.pp_powers.is_empty());
            for p in &set.pp_powers {
                assert!(dict.powers.value(*p).include_in_output);
            }
        }
    }
}
